//! Top level window behaviour: style bits, hit testing of the resize
//! border, window state flags, mouse button tracking and saving and
//! restoring the window placement.
use crate::base64_codec::{base64_decoded, base64_encoded, decode, decode_error_message, encode};
use crate::error::{PlatformError, PlatformResult};
use vstd::prelude::*;

verus! {

pub const WS_BORDER: u32 = 0x0080_0000;
pub const WS_CAPTION: u32 = 0x00C0_0000;
pub const WS_DLGFRAME: u32 = 0x0040_0000;
pub const WS_MAXIMIZEBOX: u32 = 0x0001_0000;
pub const WS_MINIMIZEBOX: u32 = 0x0002_0000;
pub const WS_OVERLAPPEDWINDOW: u32 = 0x00CF_0000;
pub const WS_POPUP: u32 = 0x8000_0000;
pub const WS_SYSMENU: u32 = 0x0008_0000;
pub const WS_THICKFRAME: u32 = 0x0004_0000;

/// Z order position of windows kept above others, and of other windows.
pub const HWND_TOPMOST: isize = -1;
pub const HWND_NOTOPMOST: isize = -2;

pub const HTCLIENT: u32 = 1;
pub const HTLEFT: u32 = 10;
pub const HTRIGHT: u32 = 11;
pub const HTTOP: u32 = 12;
pub const HTTOPLEFT: u32 = 13;
pub const HTTOPRIGHT: u32 = 14;
pub const HTBOTTOM: u32 = 15;
pub const HTBOTTOMLEFT: u32 = 16;
pub const HTBOTTOMRIGHT: u32 = 17;

pub const SIZE_MINIMIZED: u32 = 1;
pub const SIZE_MAXIMIZED: u32 = 2;
pub const WA_ACTIVE: u32 = 1;
pub const WA_CLICKACTIVE: u32 = 2;

pub const WM_LBUTTONDOWN: u32 = 0x0201;
pub const WM_LBUTTONUP: u32 = 0x0202;
pub const WM_RBUTTONDOWN: u32 = 0x0204;
pub const WM_RBUTTONUP: u32 = 0x0205;

/// How the window is framed.
#[derive(Clone, Copy, PartialEq, Eq, Structural, Debug)]
pub enum WindowFrame {
    Regular,
    NoTitle,
    NoFrame,
}

/// Style requested for a window.
#[derive(Clone, Copy, PartialEq, Eq, Structural, Debug)]
pub struct WindowStyle {
    pub frame: WindowFrame,
    pub can_resize: bool,
    pub can_close: bool,
    pub can_minimize: bool,
    pub can_maximize: bool,
    pub can_full_screen: bool,
    pub always_on_top: bool,
}

/// The system style bits of a window with `style`, starting from its current bits.
pub open spec fn style_bits(current: u32, style: WindowStyle) -> u32 {
    let s = current & !(WS_OVERLAPPEDWINDOW | WS_DLGFRAME);
    let s = match style.frame {
        WindowFrame::Regular => if style.can_resize {
            s | WS_CAPTION | WS_THICKFRAME
        } else {
            s | WS_CAPTION
        },
        WindowFrame::NoTitle => if style.can_resize {
            s | WS_CAPTION | WS_THICKFRAME
        } else {
            s | WS_CAPTION | WS_BORDER
        },
        WindowFrame::NoFrame => s | WS_POPUP,
    };
    let s = s | WS_SYSMENU;
    let s = if style.can_maximize && style.can_resize { s | WS_MAXIMIZEBOX } else { s };
    if style.can_minimize { s | WS_MINIMIZEBOX } else { s }
}

/// Computes the system style bits for `style` from the window's current bits.
pub fn window_style_bits(current: u32, style: &WindowStyle) -> (s: u32)
    ensures
        s == style_bits(current, *style),
{
    let mut s = current & !(WS_OVERLAPPEDWINDOW | WS_DLGFRAME);
    match style.frame {
        WindowFrame::Regular => {
            s = s | WS_CAPTION;
            if style.can_resize {
                s = s | WS_THICKFRAME;
            }
        },
        WindowFrame::NoTitle => {
            s = s | WS_CAPTION;
            if style.can_resize {
                s = s | WS_THICKFRAME;
            } else {
                s = s | WS_BORDER;
            }
        },
        WindowFrame::NoFrame => {
            s = s | WS_POPUP;
        },
    }
    s = s | WS_SYSMENU;
    if style.can_maximize && style.can_resize {
        s = s | WS_MAXIMIZEBOX;
    }
    if style.can_minimize {
        s = s | WS_MINIMIZEBOX;
    }
    s
}

/// Where the window goes in the Z order for `style`.
pub fn window_insert_after(style: &WindowStyle) -> (h: isize)
    ensures
        h == if style.always_on_top { HWND_TOPMOST } else { HWND_NOTOPMOST },
{
    if style.always_on_top {
        HWND_TOPMOST
    } else {
        HWND_NOTOPMOST
    }
}

/// The close command of a window's system menu.
pub const SC_CLOSE: u32 = 0xF060;
/// A menu item is named by its command.
pub const MF_BYCOMMAND: u32 = 0x0000;
/// A menu item can be chosen.
pub const MF_ENABLED: u32 = 0x0000;
/// A menu item is shown grayed.
pub const MF_GRAYED: u32 = 0x0001;
/// A menu item cannot be chosen.
pub const MF_DISABLED: u32 = 0x0002;

/// The flags that enable the close command of the system menu, or disable
/// and gray it.
pub open spec fn close_command_flags(enabled: bool) -> u32 {
    if enabled {
        MF_BYCOMMAND | MF_ENABLED
    } else {
        MF_BYCOMMAND | MF_DISABLED | MF_GRAYED
    }
}

/// The flags with which the close command (`SC_CLOSE`) of the system menu
/// is enabled or disabled.
pub fn set_close_enabled(enabled: bool) -> (flags: u32)
    ensures
        flags == close_command_flags(enabled),
{
    if enabled {
        MF_BYCOMMAND | MF_ENABLED
    } else {
        MF_BYCOMMAND | MF_DISABLED | MF_GRAYED
    }
}

/// What setting a style does to a window: its new style bits, the change
/// to the close command of its system menu, and its place in the Z order.
#[derive(Clone, Copy, PartialEq, Eq, Structural, Debug)]
pub struct StyleChange {
    pub style_bits: u32,
    pub close_command: u32,
    pub close_flags: u32,
    pub insert_after: isize,
}

/// The changes that give a window whose style bits are `current` the style
/// `style`: the frame, resize, minimize and maximize bits; the close
/// command enabled exactly when the window can be closed; topmost exactly
/// when it stays on top.
pub fn set_style(current: u32, style: &WindowStyle) -> (c: StyleChange)
    ensures
        c.style_bits == style_bits(current, *style),
        c.close_command == SC_CLOSE,
        c.close_flags == close_command_flags(style.can_close),
        c.insert_after == if style.always_on_top { HWND_TOPMOST } else { HWND_NOTOPMOST },
{
    StyleChange {
        style_bits: window_style_bits(current, style),
        close_command: SC_CLOSE,
        close_flags: set_close_enabled(style.can_close),
        insert_after: window_insert_after(style),
    }
}

/// Whether the window's border is drawn by the application.
pub fn remove_border(style: &WindowStyle) -> (r: bool)
    ensures
        r == (style.frame == WindowFrame::NoTitle),
{
    style.frame == WindowFrame::NoTitle
}

/// A rectangle in screen pixels.
#[derive(Clone, Copy, PartialEq, Eq, Structural, Debug)]
pub struct Rect32 {
    pub left: i32,
    pub top: i32,
    pub right: i32,
    pub bottom: i32,
}

/// The part of the window frame at (`x`, `y`): corners, then edges, within
/// `border` pixels of the window rectangle; the client area elsewhere.
pub open spec fn hit_test(x: int, y: int, r: Rect32, border: int) -> u32 {
    let left = x < r.left + border;
    let right = x > r.right - border;
    let top = y < r.top + border;
    let bottom = y > r.bottom - border;
    if left && top {
        HTTOPLEFT
    } else if right && top {
        HTTOPRIGHT
    } else if top {
        HTTOP
    } else if left && bottom {
        HTBOTTOMLEFT
    } else if right && bottom {
        HTBOTTOMRIGHT
    } else if bottom {
        HTBOTTOM
    } else if left {
        HTLEFT
    } else if right {
        HTRIGHT
    } else {
        HTCLIENT
    }
}

/// Hit test for windows whose border is drawn by the application.
pub fn do_hit_test(x: i32, y: i32, win_rect: &Rect32, border_width: i32) -> (r: u32)
    requires
        i32::MIN <= win_rect.left + border_width <= i32::MAX,
        i32::MIN <= win_rect.top + border_width <= i32::MAX,
        i32::MIN <= win_rect.right - border_width <= i32::MAX,
        i32::MIN <= win_rect.bottom - border_width <= i32::MAX,
    ensures
        r == hit_test(x as int, y as int, *win_rect, border_width as int),
{
    let left = x < win_rect.left + border_width;
    let right = x > win_rect.right - border_width;
    let top = y < win_rect.top + border_width;
    let bottom = y > win_rect.bottom - border_width;
    if left && top {
        HTTOPLEFT
    } else if right && top {
        HTTOPRIGHT
    } else if top {
        HTTOP
    } else if left && bottom {
        HTBOTTOMLEFT
    } else if right && bottom {
        HTBOTTOMRIGHT
    } else if bottom {
        HTBOTTOM
    } else if left {
        HTLEFT
    } else if right {
        HTRIGHT
    } else {
        HTCLIENT
    }
}

/// The part of the frame that mirrors `part` left to right.
pub open spec fn mirrored_part(part: u32) -> u32 {
    if part == HTLEFT {
        HTRIGHT
    } else if part == HTRIGHT {
        HTLEFT
    } else if part == HTTOPLEFT {
        HTTOPRIGHT
    } else if part == HTTOPRIGHT {
        HTTOPLEFT
    } else if part == HTBOTTOMLEFT {
        HTBOTTOMRIGHT
    } else if part == HTBOTTOMRIGHT {
        HTBOTTOMLEFT
    } else {
        part
    }
}

/// The part of the frame that mirrors `part` top to bottom.
pub open spec fn flipped_part(part: u32) -> u32 {
    if part == HTTOP {
        HTBOTTOM
    } else if part == HTBOTTOM {
        HTTOP
    } else if part == HTTOPLEFT {
        HTBOTTOMLEFT
    } else if part == HTBOTTOMLEFT {
        HTTOPLEFT
    } else if part == HTTOPRIGHT {
        HTBOTTOMRIGHT
    } else if part == HTBOTTOMRIGHT {
        HTTOPRIGHT
    } else {
        part
    }
}

/// Each region of the frame gives its own part: a point within the border
/// of exactly one side of the window gives that side's edge, one within the
/// border of a horizontal and of a vertical side gives their corner, and one
/// within the border of no side gives the client area.
pub proof fn lemma_hit_test_regions(x: int, y: int, r: Rect32, border: int)
    ensures
        ({
            let near_left = x < r.left + border;
            let near_right = x > r.right - border;
            let near_top = y < r.top + border;
            let near_bottom = y > r.bottom - border;
            let part = hit_test(x, y, r, border);
            &&& (!near_left && !near_right && !near_top && !near_bottom) ==> part == HTCLIENT
            &&& (near_left && !near_right && !near_top && !near_bottom) ==> part == HTLEFT
            &&& (near_right && !near_left && !near_top && !near_bottom) ==> part == HTRIGHT
            &&& (near_top && !near_bottom && !near_left && !near_right) ==> part == HTTOP
            &&& (near_bottom && !near_top && !near_left && !near_right) ==> part == HTBOTTOM
            &&& (near_top && near_left && !near_bottom && !near_right) ==> part == HTTOPLEFT
            &&& (near_top && near_right && !near_bottom && !near_left) ==> part == HTTOPRIGHT
            &&& (near_bottom && near_left && !near_top && !near_right) ==> part == HTBOTTOMLEFT
            &&& (near_bottom && near_right && !near_top && !near_left) ==> part == HTBOTTOMRIGHT
        }),
{
}

/// The hit test is symmetric: mirroring a point left to right within the
/// window rectangle mirrors the part it hits (left edge and right edge,
/// left corners and right corners), and so does flipping it top to bottom,
/// for points that are not within the border of both opposite sides at once.
pub proof fn lemma_hit_test_symmetric(x: int, y: int, r: Rect32, border: int)
    ensures
        !(x < r.left + border && x > r.right - border) ==> hit_test(r.left + r.right - x, y, r, border)
            == mirrored_part(hit_test(x, y, r, border)),
        !(y < r.top + border && y > r.bottom - border) ==> hit_test(x, r.top + r.bottom - y, r, border)
            == flipped_part(hit_test(x, y, r, border)),
{
}

/// State of a flag that can be in transition.
#[derive(Clone, Copy, PartialEq, Eq, Structural, Debug)]
pub enum BoolTransition {
    No,
    NoToYes,
    Yes,
    YesToNo,
}

/// Window state reported to the application.
#[derive(Clone, Copy, PartialEq, Eq, Structural, Debug)]
pub struct WindowStateFlags {
    pub maximized: BoolTransition,
    pub minimized: BoolTransition,
    pub full_screen: BoolTransition,
    pub active: bool,
}

/// The flags after a resize notification with `w_param`.
pub open spec fn flags_after_size(flags: WindowStateFlags, w_param: u32) -> WindowStateFlags {
    WindowStateFlags {
        maximized: if w_param & SIZE_MAXIMIZED != 0 { BoolTransition::Yes } else {
            BoolTransition::No
        },
        minimized: if w_param & SIZE_MINIMIZED != 0 { BoolTransition::Yes } else {
            BoolTransition::No
        },
        ..flags
    }
}

/// The flags after an activation notification with `w_param`.
pub open spec fn flags_after_activate(flags: WindowStateFlags, w_param: u32) -> WindowStateFlags {
    WindowStateFlags { active: w_param & (WA_ACTIVE | WA_CLICKACTIVE) != 0, ..flags }
}

/// Tracks the window state flags and whether the application must hear of a change.
pub struct WindowStateTracker {
    pub flags: WindowStateFlags,
}

impl WindowStateTracker {
    /// Replaces the flags; true when they changed, which is when the delegate is told.
    pub fn update_state_flags(&mut self, new_state_flags: WindowStateFlags) -> (changed: bool)
        ensures
            changed == (old(self).flags != new_state_flags),
            final(self).flags == new_state_flags,
    {
        if self.flags != new_state_flags {
            self.flags = new_state_flags;
            true
        } else {
            false
        }
    }

    /// Handles a resize notification; true when the flags changed.
    pub fn on_wmsize(&mut self, w_param: u32) -> (changed: bool)
        ensures
            final(self).flags == flags_after_size(old(self).flags, w_param),
            changed == (old(self).flags != final(self).flags),
    {
        let mut new_state_flags = self.flags;
        new_state_flags.maximized = if w_param & SIZE_MAXIMIZED != 0 {
            BoolTransition::Yes
        } else {
            BoolTransition::No
        };
        new_state_flags.minimized = if w_param & SIZE_MINIMIZED != 0 {
            BoolTransition::Yes
        } else {
            BoolTransition::No
        };
        self.update_state_flags(new_state_flags)
    }

    /// Handles an activation notification; true when the flags changed.
    pub fn on_wmactivate(&mut self, w_param: u32) -> (changed: bool)
        ensures
            final(self).flags == flags_after_activate(old(self).flags, w_param),
            changed == (old(self).flags != final(self).flags),
    {
        let mut new_state_flags = self.flags;
        new_state_flags.active = w_param & (WA_ACTIVE | WA_CLICKACTIVE) != 0;
        self.update_state_flags(new_state_flags)
    }
}

/// A mouse message as received by the child window.
#[derive(Clone, Copy, PartialEq, Eq, Structural, Debug)]
pub struct MouseMessage {
    pub message: u32,
    pub w_param: usize,
    pub l_param: isize,
}

/// Remembers the last mouse button press that was not released yet.
pub struct MouseState {
    pub last_button_down: Option<MouseMessage>,
}

/// The release message matching a press message.
pub open spec fn release_of(message: u32) -> u32 {
    if message == WM_LBUTTONDOWN {
        WM_LBUTTONUP
    } else if message == WM_RBUTTONDOWN {
        WM_RBUTTONUP
    } else {
        message
    }
}

impl MouseState {
    /// No button pressed.
    pub fn new() -> (r: Self)
        ensures
            r.last_button_down is None,
    {
        MouseState { last_button_down: None }
    }

    /// Records presses and forgets them on release.
    pub fn on_message(&mut self, msg: MouseMessage)
        ensures
            final(self).last_button_down == if msg.message == WM_LBUTTONDOWN || msg.message
                == WM_RBUTTONDOWN {
                Some(msg)
            } else if msg.message == WM_LBUTTONUP || msg.message == WM_RBUTTONUP {
                None
            } else {
                old(self).last_button_down
            },
    {
        if msg.message == WM_LBUTTONDOWN || msg.message == WM_RBUTTONDOWN {
            self.last_button_down = Some(msg);
        } else if msg.message == WM_LBUTTONUP || msg.message == WM_RBUTTONUP {
            self.last_button_down = None;
        }
    }

    /// The release to send for a press that the child window will not see
    /// released, forgetting the press.
    pub fn synthetize_mouse_up(&mut self) -> (up: Option<MouseMessage>)
        ensures
            final(self).last_button_down is None,
            up == match old(self).last_button_down {
                Some(m) => Some(MouseMessage { message: release_of(m.message), ..m }),
                None => None,
            },
    {
        match self.last_button_down.take() {
            Some(m) => {
                let mut m = m;
                if m.message == WM_LBUTTONDOWN {
                    m.message = WM_LBUTTONUP;
                } else if m.message == WM_RBUTTONDOWN {
                    m.message = WM_RBUTTONUP;
                }
                Some(m)
            },
            None => None,
        }
    }
}

/// Size in bytes of a window placement record.
pub const WINDOWPLACEMENT_SIZE: usize = 44;

/// Hides the window when shown.
pub const SW_HIDE: u32 = 0;

/// Little-endian 32 bit number at `offset`.
pub open spec fn le_u32(b: Seq<u8>, offset: int) -> int {
    b[offset] + b[offset + 1] * 0x100 + b[offset + 2] * 0x1_0000 + b[offset + 3] * 0x100_0000
}

/// A placement record whose length field is right.
pub open spec fn placement_valid(b: Seq<u8>) -> bool {
    b.len() == WINDOWPLACEMENT_SIZE && le_u32(b, 0) == WINDOWPLACEMENT_SIZE
}

/// The placement to apply and, for hidden windows, the show command to
/// remember; hidden windows get their record's show command cleared.
pub open spec fn placement_to_apply(b: Seq<u8>, visible: bool) -> (Seq<u8>, Option<u32>) {
    if visible {
        (b, None)
    } else {
        (b.update(8, 0).update(9, 0).update(10, 0).update(11, 0), Some(le_u32(b, 8) as u32))
    }
}

fn read_le_u32(b: &Vec<u8>, offset: usize) -> (r: u32)
    requires
        offset + 4 <= b.len(),
    ensures
        r == le_u32(b@, offset as int),
{
    let b0 = b[offset] as u32;
    let b1 = b[offset + 1] as u32;
    let b2 = b[offset + 2] as u32;
    let b3 = b[offset + 3] as u32;
    b0 + b1 * 0x100 + b2 * 0x1_0000 + b3 * 0x100_0000
}

/// The string a window position is saved as: the placement record in
/// base64, or nothing when the placement could not be read.
pub fn save_position_to_string(placement: Option<&[u8]>) -> (s: String)
    ensures
        s@ == match placement {
            Some(b) => base64_encoded(b@),
            None => Seq::<char>::empty(),
        },
{
    match placement {
        Some(b) => encode(b),
        None => String::new(),
    }
}

/// The message of a placement string that does not hold a placement record.
pub open spec fn invalid_placement_message() -> Seq<char> {
    "Invalid placement string"@
}

/// Decodes a saved window position. Fails on text that is not base64, and
/// on records of the wrong size or with the wrong length field. For a hidden
/// window the record's show command is taken out and returned, to be used
/// when the window is shown.
pub fn restore_position_from_string(position: &str, visible: bool) -> (r: PlatformResult<
    (Vec<u8>, Option<u32>),
>)
    ensures
        match base64_decoded(position@) {
            None => r matches Err(PlatformError::OtherError { .. }),
            Some(b) => if placement_valid(b) {
                r matches Ok((p, cmd)) && (p@, cmd) == placement_to_apply(b, visible)
            } else {
                r matches Err(PlatformError::OtherError { error }) && error@
                    == invalid_placement_message()
            },
        },
{
    let buffer = match decode(position) {
        Ok(b) => b,
        Err(e) => {
            return Err(PlatformError::OtherError { error: decode_error_message(&e) });
        },
    };
    if buffer.len() != WINDOWPLACEMENT_SIZE {
        return Err(PlatformError::OtherError { error: String::from_str("Invalid placement string") });
    }
    let length = read_le_u32(&buffer, 0);
    if length != WINDOWPLACEMENT_SIZE as u32 {
        return Err(PlatformError::OtherError { error: String::from_str("Invalid placement string") });
    }
    if visible {
        Ok((buffer, None))
    } else {
        let show_cmd = read_le_u32(&buffer, 8);
        let mut placement = buffer;
        placement.set(8, 0);
        placement.set(9, 0);
        placement.set(10, 0);
        placement.set(11, 0);
        Ok((placement, Some(show_cmd)))
    }
}

/// A visible window's placement survives saving and restoring.
pub proof fn lemma_placement_roundtrip(b: Seq<u8>)
    requires
        placement_valid(b),
    ensures
        placement_to_apply(b, true) == (b, None::<u32>),
{
}

pub const WM_DESTROY: u32 = 0x0002;
pub const WM_CLOSE: u32 = 0x0010;
pub const WM_WINDOWPOSCHANGING: u32 = 0x0046;
pub const WM_DISPLAYCHANGE: u32 = 0x007E;
pub const WM_NCCALCSIZE: u32 = 0x0083;
pub const WM_NCHITTEST: u32 = 0x0084;
pub const WM_DWMCOMPOSITIONCHANGED: u32 = 0x031E;
/// Hit test answer that passes the pointer to the window below.
pub const HTTRANSPARENT: isize = -1;

/// What the window does for a message before the default handling.
#[derive(Clone, Copy, PartialEq, Eq, Structural, Debug)]
pub enum BaseMessageEffect {
    /// Nothing.
    NoEffect,
    /// Ask the delegate whether the window may close.
    ShouldClose,
    /// Tell the delegate that the window closes.
    WillClose,
    /// Forget the display layout: it changed.
    DisplaysChanged,
    /// Keep the new position within the size limits (see `adjust_position`).
    AdjustPosition,
    /// Update the frame drawn by the window manager.
    UpdateDwmFrame,
}

/// The effect of a message and the result to return for it (`None`: the
/// default handling goes on); `hit` is the hit test of the pointer position
/// of the message, used only without a border.
pub open spec fn base_message_result(msg: u32, remove_border: bool, hit: u32) -> (BaseMessageEffect, Option<isize>) {
    if msg == WM_CLOSE {
        (BaseMessageEffect::ShouldClose, Some(0))
    } else if msg == WM_DESTROY {
        (BaseMessageEffect::WillClose, None)
    } else if msg == WM_DISPLAYCHANGE {
        (BaseMessageEffect::DisplaysChanged, None)
    } else if msg == WM_WINDOWPOSCHANGING {
        (BaseMessageEffect::AdjustPosition, None)
    } else if msg == WM_DWMCOMPOSITIONCHANGED {
        (BaseMessageEffect::UpdateDwmFrame, None)
    } else if msg == WM_NCCALCSIZE && remove_border {
        (BaseMessageEffect::NoEffect, Some(1))
    } else if msg == WM_NCHITTEST && remove_border {
        (BaseMessageEffect::NoEffect, Some(hit as isize))
    } else {
        (BaseMessageEffect::NoEffect, None)
    }
}

/// The effect of a window message and its result (see `base_message_result`).
pub fn handle_base_message(msg: u32, remove_border: bool, hit: u32) -> (r: (BaseMessageEffect, Option<isize>))
    ensures
        r == base_message_result(msg, remove_border, hit),
{
    if msg == WM_CLOSE {
        (BaseMessageEffect::ShouldClose, Some(0))
    } else if msg == WM_DESTROY {
        (BaseMessageEffect::WillClose, None)
    } else if msg == WM_DISPLAYCHANGE {
        (BaseMessageEffect::DisplaysChanged, None)
    } else if msg == WM_WINDOWPOSCHANGING {
        (BaseMessageEffect::AdjustPosition, None)
    } else if msg == WM_DWMCOMPOSITIONCHANGED {
        (BaseMessageEffect::UpdateDwmFrame, None)
    } else if msg == WM_NCCALCSIZE && remove_border {
        (BaseMessageEffect::NoEffect, Some(1))
    } else if msg == WM_NCHITTEST && remove_border {
        (BaseMessageEffect::NoEffect, Some(hit as isize))
    } else {
        (BaseMessageEffect::NoEffect, None)
    }
}

/// The result for a message of the Flutter child window: without a border,
/// hit tests outside the client area pass to the top level window.
pub fn handle_child_message(msg: u32, remove_border: bool, hit: u32) -> (r: Option<isize>)
    ensures
        r == if msg == WM_NCHITTEST && remove_border {
            Some(if hit != HTCLIENT { HTTRANSPARENT } else { hit as isize })
        } else {
            None::<isize>
        },
{
    if msg == WM_NCHITTEST && remove_border {
        if hit != HTCLIENT {
            Some(HTTRANSPARENT)
        } else {
            Some(hit as isize)
        }
    } else {
        None
    }
}

/// Position and size of a window, in physical pixels.
#[derive(Clone, Copy, PartialEq, Eq, Structural, Debug)]
pub struct WindowPos {
    pub x: i32,
    pub y: i32,
    pub cx: i32,
    pub cy: i32,
}

/// A size in physical pixels.
#[derive(Clone, Copy, PartialEq, Eq, Structural, Debug)]
pub struct ISize {
    pub width: i32,
    pub height: i32,
}

/// `v` limited to `lo..=hi`.
pub open spec fn clamped(v: int, lo: int, hi: int) -> int {
    if v < lo {
        lo
    } else if v > hi {
        hi
    } else {
        v
    }
}

/// The smallest allowed size: the larger of the minimum content size (with
/// the frame added) and the minimum frame size; the largest allowed size:
/// the smaller of the two maxima.
pub open spec fn size_limits(min_content: ISize, min_frame: ISize, max_content: ISize, max_frame: ISize) -> (ISize, ISize) {
    (
        ISize {
            width: if min_content.width > min_frame.width { min_content.width } else { min_frame.width },
            height: if min_content.height > min_frame.height {
                min_content.height
            } else {
                min_frame.height
            },
        },
        ISize {
            width: if max_content.width < max_frame.width { max_content.width } else { max_frame.width },
            height: if max_content.height < max_frame.height {
                max_content.height
            } else {
                max_frame.height
            },
        },
    )
}

/// The new position of a window being moved or resized, with its size kept
/// within the limits (see `size_limits`; the sizes are in physical pixels,
/// the content sizes with the frame added).
pub fn adjust_position(
    position: WindowPos,
    min_content: ISize,
    min_frame: ISize,
    max_content: ISize,
    max_frame: ISize,
) -> (r: WindowPos)
    requires
        size_limits(min_content, min_frame, max_content, max_frame).0.width <= size_limits(
            min_content,
            min_frame,
            max_content,
            max_frame,
        ).1.width,
        size_limits(min_content, min_frame, max_content, max_frame).0.height <= size_limits(
            min_content,
            min_frame,
            max_content,
            max_frame,
        ).1.height,
    ensures
        ({
            let (lo, hi) = size_limits(min_content, min_frame, max_content, max_frame);
            r == WindowPos {
                cx: clamped(position.cx as int, lo.width as int, hi.width as int) as i32,
                cy: clamped(position.cy as int, lo.height as int, hi.height as int) as i32,
                ..position
            }
        }),
{
    let min_w = if min_content.width > min_frame.width { min_content.width } else { min_frame.width };
    let min_h = if min_content.height > min_frame.height { min_content.height } else { min_frame.height };
    let max_w = if max_content.width < max_frame.width { max_content.width } else { max_frame.width };
    let max_h = if max_content.height < max_frame.height { max_content.height } else { max_frame.height };
    let cx = if position.cx < min_w { min_w } else if position.cx > max_w { max_w } else { position.cx };
    let cy = if position.cy < min_h { min_h } else if position.cy > max_h { max_h } else { position.cy };
    WindowPos { cx, cy, ..position }
}

/// The position after the size limits were applied, corrected so that a
/// window resized at its left or top border past its minimum size does not
/// drift: the right or bottom edge stays where it was at the last position.
pub open spec fn undrifted(before: WindowPos, adjusted: WindowPos, last: Option<WindowPos>) -> WindowPos {
    match last {
        Some(p) => WindowPos {
            x: if before.cx < adjusted.cx && adjusted.x != p.x {
                (p.x + p.cx - adjusted.cx) as i32
            } else {
                adjusted.x
            },
            y: if before.cy < adjusted.cy && adjusted.y != p.y {
                (p.y + p.cy - adjusted.cy) as i32
            } else {
                adjusted.y
            },
            ..adjusted
        },
        None => adjusted,
    }
}

/// Keeps a window that is resized past its minimum size from drifting (see
/// `undrifted`).
pub fn fix_window_drift(before: WindowPos, adjusted: WindowPos, last: Option<WindowPos>) -> (r: WindowPos)
    requires
        last matches Some(p) ==> i32::MIN <= p.x + p.cx - adjusted.cx <= i32::MAX && i32::MIN <= p.y
            + p.cy - adjusted.cy <= i32::MAX,
    ensures
        r == undrifted(before, adjusted, last),
{
    let mut position = adjusted;
    if let Some(p) = last {
        if before.cx < position.cx {
            if position.x != p.x {
                position.x = (p.x as i64 + p.cx as i64 - position.cx as i64) as i32;
            }
        }
        if before.cy < position.cy {
            if position.y != p.y {
                position.y = (p.y as i64 + p.cy as i64 - position.cy as i64) as i32;
            }
        }
    }
    position
}

/// Which parts of a window's geometry a request set, or a platform supports.
#[derive(Clone, Copy, PartialEq, Eq, Structural, Debug)]
pub struct WindowGeometryFlags {
    pub frame_origin: bool,
    pub frame_size: bool,
    pub content_origin: bool,
    pub content_size: bool,
    pub min_frame_size: bool,
    pub max_frame_size: bool,
    pub min_content_size: bool,
    pub max_content_size: bool,
}

/// Every part of the geometry can be set on this platform.
pub fn supported_geometry() -> (r: WindowGeometryFlags)
    ensures
        r == (WindowGeometryFlags {
            frame_origin: true,
            frame_size: true,
            content_origin: true,
            content_size: true,
            min_frame_size: true,
            max_frame_size: true,
            min_content_size: true,
            max_content_size: true,
        }),
{
    WindowGeometryFlags {
        frame_origin: true,
        frame_size: true,
        content_origin: true,
        content_size: true,
        min_frame_size: true,
        max_frame_size: true,
        min_content_size: true,
        max_content_size: true,
    }
}

pub const SWP_NOSIZE: u32 = 0x0001;
pub const SWP_NOMOVE: u32 = 0x0002;
pub const SWP_NOZORDER: u32 = 0x0004;
pub const SWP_NOACTIVATE: u32 = 0x0010;

/// The `SetWindowPos` flags of a geometry change: the z order and
/// activation stay, and position or size stay when the request has none.
pub fn set_bounds_flags(has_origin: bool, has_size: bool) -> (flags: u32)
    ensures
        flags == (SWP_NOZORDER | SWP_NOACTIVATE) | (if has_origin { 0 } else { SWP_NOMOVE }) | (if has_size {
            0
        } else {
            SWP_NOSIZE
        }),
{
    let mut flags = SWP_NOZORDER | SWP_NOACTIVATE;
    if !has_origin {
        flags = flags | SWP_NOMOVE;
    }
    if !has_size {
        flags = flags | SWP_NOSIZE;
    }
    assert(flags == (SWP_NOZORDER | SWP_NOACTIVATE) | (if has_origin { 0u32 } else { SWP_NOMOVE }) | (if has_size {
        0u32
    } else {
        SWP_NOSIZE
    })) by (bit_vector)
        requires
            flags == if has_origin && has_size {
                SWP_NOZORDER | SWP_NOACTIVATE
            } else if has_origin {
                (SWP_NOZORDER | SWP_NOACTIVATE) | SWP_NOSIZE
            } else if has_size {
                (SWP_NOZORDER | SWP_NOACTIVATE) | SWP_NOMOVE
            } else {
                ((SWP_NOZORDER | SWP_NOACTIVATE) | SWP_NOMOVE) | SWP_NOSIZE
            };
    flags
}

pub const WM_ACTIVATE: u32 = 0x0006;
pub const WM_SETFOCUS: u32 = 0x0007;
pub const WM_SIZE: u32 = 0x0005;
pub const WM_SHOWWINDOW: u32 = 0x0018;
pub const WM_EXITSIZEMOVE: u32 = 0x0232;

/// A step the top-level window of a Flutter view takes for a message.
#[derive(Clone, Copy, PartialEq, Eq, Structural, Debug)]
pub enum WindowMessageAction {
    /// Fit the Flutter view to the window's client area.
    LayoutChild,
    /// Bring the state flags up to date from the size message (`on_wmsize`).
    UpdateSizeState,
    /// Redraw the window.
    ForceRedraw,
    /// Tell the Flutter view that it is shown.
    ShowChild,
    /// Tell the Flutter view again that it is shown, a second later.
    ShowChildLater,
    /// Give the keyboard focus to the Flutter view.
    FocusChild,
    /// Bring the state flags up to date from the activation message (`on_wmactivate`).
    UpdateActivationState,
    /// Run the default handling, and answer the message with its result.
    AnswerWithDefault,
    /// Fit the Flutter view to the proposed client rectangle of the message.
    ResizeChildToProposedClient,
}

/// The steps taken for `msg` before the Flutter view's controller sees it.
pub open spec fn steps_before_controller(msg: u32) -> Seq<WindowMessageAction> {
    if msg == WM_SIZE {
        seq![WindowMessageAction::LayoutChild, WindowMessageAction::UpdateSizeState]
    } else if msg == WM_SHOWWINDOW {
        seq![WindowMessageAction::LayoutChild, WindowMessageAction::ForceRedraw]
    } else if msg == WM_DISPLAYCHANGE {
        seq![WindowMessageAction::ShowChild, WindowMessageAction::ShowChildLater]
    } else {
        Seq::empty()
    }
}

/// The steps taken for `msg` when the controller did not answer it, before
/// the window menu and the base window see it. A size calculation with a
/// proposed client rectangle (`w_param` 1) resizes the Flutter view at once
/// when there is no redirection surface or the border is removed; with a
/// border, the default handling runs first and answers the message.
pub open spec fn steps_after_controller(
    msg: u32,
    w_param: usize,
    has_redirection_surface: bool,
    remove_border: bool,
) -> Seq<WindowMessageAction> {
    if msg == WM_SETFOCUS {
        seq![WindowMessageAction::FocusChild]
    } else if msg == WM_ACTIVATE {
        seq![WindowMessageAction::UpdateActivationState]
    } else if msg == WM_NCCALCSIZE && w_param == 1 && (!has_redirection_surface || remove_border) {
        if remove_border {
            seq![WindowMessageAction::ResizeChildToProposedClient]
        } else {
            seq![
                WindowMessageAction::AnswerWithDefault,
                WindowMessageAction::ResizeChildToProposedClient,
            ]
        }
    } else if msg == WM_EXITSIZEMOVE {
        seq![WindowMessageAction::ForceRedraw]
    } else {
        Seq::empty()
    }
}

/// The steps, in order, that the top-level window takes for `msg` before
/// handing it to the Flutter view's controller.
pub fn window_steps_before_controller(msg: u32) -> (steps: Vec<WindowMessageAction>)
    ensures
        steps@ == steps_before_controller(msg),
{
    if msg == WM_SIZE {
        vec![WindowMessageAction::LayoutChild, WindowMessageAction::UpdateSizeState]
    } else if msg == WM_SHOWWINDOW {
        vec![WindowMessageAction::LayoutChild, WindowMessageAction::ForceRedraw]
    } else if msg == WM_DISPLAYCHANGE {
        vec![WindowMessageAction::ShowChild, WindowMessageAction::ShowChildLater]
    } else {
        Vec::new()
    }
}

/// The steps, in order, that the top-level window takes for `msg` when the
/// controller did not answer it; after them the window menu, then the base
/// window, see the message unless a step answered it.
pub fn window_steps_after_controller(
    msg: u32,
    w_param: usize,
    has_redirection_surface: bool,
    remove_border: bool,
) -> (steps: Vec<WindowMessageAction>)
    ensures
        steps@ == steps_after_controller(msg, w_param, has_redirection_surface, remove_border),
{
    if msg == WM_SETFOCUS {
        vec![WindowMessageAction::FocusChild]
    } else if msg == WM_ACTIVATE {
        vec![WindowMessageAction::UpdateActivationState]
    } else if msg == WM_NCCALCSIZE && w_param == 1 && (!has_redirection_surface || remove_border) {
        if remove_border {
            vec![WindowMessageAction::ResizeChildToProposedClient]
        } else {
            vec![
                WindowMessageAction::AnswerWithDefault,
                WindowMessageAction::ResizeChildToProposedClient,
            ]
        }
    } else if msg == WM_EXITSIZEMOVE {
        vec![WindowMessageAction::ForceRedraw]
    } else {
        Vec::new()
    }
}

/// A handle to a window of the application.
#[derive(Debug, Copy, Clone, PartialEq, Eq, Structural, Hash)]
pub struct WindowHandle(pub i64);

/// Told of requests to close a window and of its closing.
pub trait WindowDelegate {
    /// The user asked to close the window.
    fn should_close(&self);
    /// The window is being destroyed.
    fn will_close(&self);
}

/// Sends messages of a window to every window on a channel.
pub struct WindowMessageBroadcaster {
    pub channel: String,
    pub source_window_handle: WindowHandle,
}

impl WindowMessageBroadcaster {
    /// A broadcaster for messages of `source_window_handle` on `channel`.
    pub fn new(channel: String, source_window_handle: WindowHandle) -> (r: Self)
        ensures
            r.channel == channel,
            r.source_window_handle == source_window_handle,
    {
        WindowMessageBroadcaster { channel, source_window_handle }
    }
}

} // verus!
