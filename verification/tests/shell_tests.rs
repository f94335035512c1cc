use nativeshell::binary_messenger::{PlatformBinaryMessenger, PlatformEngine};
use nativeshell::bitmap::{bitmap_bits, bitmap_info_header, ImageData};
use nativeshell::display::{move_to_origin, position_order, screen_id_for_monitor, AuxState, IRect};
use nativeshell::drag::{
    convert_drag_effect, convert_drag_effects, convert_drop_effect_mask, get_format, DataObject,
    DragEffect, DropSource, EnumFORMATETC, FallThroughDragDataAdapter, FilesDragDataAdapter, FormatEtc,
    StgMedium, UrlsDragDataAdapter, S_FALSE, S_OK, TYMED_HGLOBAL,
};
use nativeshell::error::{windows_error_from_last_error, PlatformError, HRESULT_FROM_WIN32};
use nativeshell::file_open_dialog::{FileDialogAction, FileOpenDialogService};
use nativeshell::hot_key::{hot_key_modifiers, PlatformHotKeyManager, MOD_ALT, MOD_SHIFT};
use nativeshell::keyboard_map::{
    character_from, choose_keyboard_layout, is_ascii_capable, key_from_entry, KeyMapEntry,
    KeyboardMap, PlatformKeyboardMap,
};
use nativeshell::menu::{
    get_menu_item_info, on_menu_hook, popup_outcome, popup_track_flags, MenuAction, title_for_item, Accelerator, CheckStatus, MenuEdit,
    MenuHookAction, MenuHookMessage, MenuHookState, MenuItem, PlatformMenu, PlatformMenuManager,
    MFS_CHECKED, MFS_DISABLED, MFT_RADIOCHECK, MFT_STRING, WM_KEYDOWN, WM_KEYUP, WM_LBUTTONUP,
    WM_MOUSEFIRST,
};
use nativeshell::run_loop::{PlatformRunLoop, RunLoop};
use nativeshell::screen_manager::{PlatformScreenManager, ScreenManager, ScreenManagerDelegate};
use nativeshell::status_item::{
    choose_icon, PlatformStatusItem, PlatformStatusItemManager, StatusItemActionType,
    StatusItemDelegate, StatusItemError, StatusItemHandle, StatusItemManager,
};
use nativeshell::texture::{
    PixelBuffer, PixelBufferFormat, PlatformTexture, Texture, TextureError, PIXEL_BUFFER_FORMAT,
};
use nativeshell::timers::{State, IDLE_WAIT};
use nativeshell::window::{
    adjust_position, do_hit_test, fix_window_drift, handle_base_message, handle_child_message,
    restore_position_from_string, save_position_to_string, set_bounds_flags, set_close_enabled,
    set_style, supported_geometry, window_steps_after_controller, window_steps_before_controller,
    WindowMessageAction, WM_ACTIVATE, WM_EXITSIZEMOVE, WM_NCCALCSIZE, WM_SETFOCUS, WM_SIZE,
    window_style_bits, BaseMessageEffect, BoolTransition, ISize, MouseMessage, MouseState,
    Rect32, WindowFrame, WindowPos, WindowStateFlags, WindowStateTracker, WindowStyle, HTBOTTOMRIGHT,
    HTCLIENT, HTLEFT, HTTOPLEFT, HTTRANSPARENT, WM_CLOSE, WM_NCHITTEST,
};
use nativeshell::words::{HIWORD, LOWORD, MAKELONG};

#[test]
fn words_split_and_join() {
    assert_eq!(MAKELONG(0x1234, 0xABCD), 0xABCD1234);
    assert_eq!(LOWORD(0xABCD1234), 0x1234);
    assert_eq!(HIWORD(0xABCD1234), 0xABCD);
    assert_eq!(LOWORD(MAKELONG(7, 9)), 7);
    assert_eq!(HIWORD(MAKELONG(7, 9)), 9);
}

#[test]
fn timers_schedule_and_fire() {
    let mut s = State::new();
    let a = s.schedule(100, 50);
    let b = s.schedule(100, 10);
    assert_eq!(a, 1);
    assert_eq!(b, 2);
    assert_eq!(s.next_timer(100), 110);
    let due = s.due_timers(120);
    assert_eq!(due, vec![b]);
    assert!(s.take_timer(b));
    assert!(!s.take_timer(b));
    assert!(s.is_scheduled(a));
    s.unschedule(a);
    assert!(!s.is_scheduled(a));
    assert_eq!(s.len(), 0);
    assert_eq!(s.next_timer(5), 5 + IDLE_WAIT);
}

#[test]
fn wake_up_delays() {
    assert_eq!(State::wake_up_delay(5_000_000, 1_000_000), 4);
    assert_eq!(State::wake_up_delay(1, 2), 0);
    assert_eq!(State::wake_up_delay(2_999_999, 1_000_000), 1);
}

#[test]
fn run_loop_schedules_and_stops() {
    let mut r = RunLoop::new();
    let h = r.schedule(0, 1000);
    let now = r.schedule_now(0);
    assert_ne!(h, now);
    assert_eq!(r.platform().due_timers(0), vec![now]);
    r.unschedule(now);
    assert!(r.platform().due_timers(0).is_empty());
    assert!(!r.platform().is_quit_requested());
    r.stop();
    assert!(r.platform().is_quit_requested());
    let first = r.new_sender();
    let second = r.new_sender();
    first.send(&mut r, 3);
    second.send(&mut r, 4);
    first.send(&mut r, 5);
    assert_eq!(r.platform().take_callbacks(), vec![3, 4, 5]);
    assert!(r.platform().take_callbacks().is_empty());
    r.platform().initialize(77);
    let third = r.new_sender();
    third.send(&mut r, 6);
    assert_eq!(r.platform().take_callbacks(), vec![6]);
    r.unschedule(0);
    assert_eq!(r.platform().due_timers(1000), vec![h]);
    let mut p = PlatformRunLoop::new();
    let t = p.schedule(10, 3_000_000);
    assert_eq!(p.next_timer(10), 3_000_010);
    assert_eq!(p.wake_up_delay(10), 3);
    p.unschedule(t);
    assert_eq!(p.next_timer(10), 10 + IDLE_WAIT);
}

#[test]
fn status_item_messages() {
    let item = PlatformStatusItem::new(StatusItemHandle(3), 1);
    assert_eq!(item.on_message(0x0201), Some(StatusItemActionType::LeftMouseDown));
    assert_eq!(item.on_message(0x0205), Some(StatusItemActionType::RightMouseUp));
    assert_eq!(item.on_message(0x0200), None);
    assert_eq!(PlatformStatusItem::update_flags(true), 0x7);
    assert_eq!(PlatformStatusItem::update_flags(false), 0x5);
    let mut m = PlatformStatusItemManager::new();
    m.create_status_item(StatusItemHandle(3), 1);
    m.create_status_item(StatusItemHandle(4), 2);
    let msg = m.on_status_item_message(MAKELONG(10, 20), MAKELONG(0x0202, 4)).unwrap();
    assert_eq!(msg.handle, StatusItemHandle(4));
    assert_eq!(msg.msg, 0x0202);
    assert_eq!((msg.x, msg.y), (10, 20));
    m.unregister_status_item(StatusItemHandle(4));
    assert!(m.on_status_item_message(0, MAKELONG(0x0202, 4)).is_none());
}

#[test]
fn status_item_icon_choice() {
    assert_eq!(choose_icon(&[16, 32, 20], 22), Some(2));
    assert_eq!(choose_icon(&[18, 26], 22), Some(0));
    assert_eq!(choose_icon(&[], 22), None);
}

#[test]
fn status_item_manager_handles() {
    let mut m = StatusItemManager::new();
    let a = m.on_create(7).unwrap();
    let b = m.on_create(8).unwrap();
    let c = m.on_create(7).unwrap();
    assert_eq!((a, b, c), (StatusItemHandle(1), StatusItemHandle(2), StatusItemHandle(3)));
    assert_eq!(m.get_platform_status_item(b).unwrap().engine, 8);
    assert_eq!(m.on_action(a, StatusItemActionType::LeftMouseUp), Some(7));
    m.init(7);
    assert_eq!(
        m.get_platform_status_item(a).err(),
        Some(StatusItemError::InvalidStatusItemHandle)
    );
    assert!(m.get_platform_status_item(c).is_err());
    assert!(m.get_platform_status_item(b).is_ok());
    m.destroy(b);
    assert_eq!(m.engine_of(b), None);
    let d = m.on_create(9).unwrap();
    assert_eq!(d, StatusItemHandle(4));
    let msg = m.platform_manager().on_status_item_message(0, MAKELONG(0x0201, 4));
    assert_eq!(msg.unwrap().handle, d);
}

fn accelerator(label: &str, control: bool, alt: bool, shift: bool, meta: bool) -> Accelerator {
    Accelerator { label: label.into(), alt, control, shift, meta }
}

fn item(id: i64, title: &str) -> MenuItem {
    MenuItem {
        id,
        title: title.into(),
        enabled: true,
        separator: false,
        check_status: CheckStatus::NoCheck,
        submenu: None,
        accelerator: None,
    }
}

#[test]
fn hot_keys() {
    assert_eq!(hot_key_modifiers(&accelerator("A", false, true, true, false)), MOD_ALT | MOD_SHIFT);
    let mut m = PlatformHotKeyManager::new();
    assert_eq!(m.create_hot_key(&accelerator("A", true, false, false, true), 5, 1), 0x2 | 0x8);
    m.create_hot_key(&accelerator("B", false, false, false, false), 6, 2);
    m.create_hot_key(&accelerator("C", false, false, false, false), 7, 1);
    assert_eq!(m.on_hot_key(6), Some(2));
    assert_eq!(m.on_hot_key(9), None);
    let mut keys = m.engine_destroyed(1);
    keys.sort();
    assert_eq!(keys, vec![5, 7]);
}

#[test]
fn menu_titles_and_info() {
    let mut i = item(3, "Open");
    assert_eq!(title_for_item(&i), "Open");
    i.accelerator = Some(accelerator("O", true, false, true, false));
    assert_eq!(title_for_item(&i), "Open\tCtrl+Shift+O");
    i.accelerator = Some(accelerator("F4", false, true, false, false));
    assert_eq!(title_for_item(&i), "Open\tAlt+F4");
    i.accelerator = Some(accelerator("X", false, false, false, false));
    assert_eq!(title_for_item(&i), "Open\tX");
    i.enabled = false;
    i.check_status = CheckStatus::RadioOn;
    let info = get_menu_item_info(&i, &[79, 0], Some(77));
    assert_eq!(info.item_type, MFT_STRING | MFT_RADIOCHECK);
    assert_eq!(info.state, MFS_DISABLED | MFS_CHECKED);
    assert_eq!(info.id, 3);
    assert_eq!(info.submenu, 77);
    assert_eq!(info.title_len, 2);
    assert!(matches!(PlatformMenuManager::new().set_app_menu(None), Err(PlatformError::NotAvailable)));
}

#[test]
fn menu_update_edits() {
    let mut menu = PlatformMenu::new(1);
    let edits = menu.update_from_menu(vec![item(1, "a"), item(2, "b")]);
    assert_eq!(edits, vec![MenuEdit::Insert { index: 0 }, MenuEdit::Insert { index: 1 }]);
    let edits = menu.update_from_menu(vec![item(1, "a"), item(3, "c")]);
    assert_eq!(edits, vec![MenuEdit::Update { id: 2, index: 1 }]);
    let edits = menu.update_from_menu(vec![item(3, "c")]);
    assert_eq!(edits, vec![MenuEdit::Remove { id: 1 }]);
    let edits = menu.update_from_menu(vec![item(3, "c")]);
    assert!(edits.is_empty());
    assert_eq!(menu.handle(), 1);
}

fn apply_menu_edits(shown: &mut Vec<(i64, String)>, edits: &[MenuEdit], new: &[(i64, &str)]) {
    for e in edits {
        match *e {
            MenuEdit::Remove { id } => {
                let j = shown.iter().position(|x| x.0 == id).unwrap();
                shown.remove(j);
            }
            MenuEdit::Update { id, index } => {
                let j = shown.iter().position(|x| x.0 == id).unwrap();
                shown[j] = (new[index].0, new[index].1.to_string());
            }
            MenuEdit::Insert { index } => {
                shown.insert(index, (new[index].0, new[index].1.to_string()));
            }
        }
    }
}

#[test]
fn menu_update_edits_rebuild_new_items() {
    let old = [(1, "a"), (2, "b"), (3, "c"), (4, "d")];
    let new = [(1, "a"), (5, "e"), (3, "c!"), (6, "f"), (7, "g")];
    let mut menu = PlatformMenu::new(1);
    let edits = menu.update_from_menu(old.iter().map(|x| item(x.0, x.1)).collect());
    let mut shown = Vec::new();
    apply_menu_edits(&mut shown, &edits, &old);
    let edits = menu.update_from_menu(new.iter().map(|x| item(x.0, x.1)).collect());
    apply_menu_edits(&mut shown, &edits, &new);
    let expected: Vec<(i64, String)> = new.iter().map(|x| (x.0, x.1.to_string())).collect();
    assert_eq!(shown, expected);
    let fewer = [(3, "c!"), (7, "g")];
    let edits = menu.update_from_menu(fewer.iter().map(|x| item(x.0, x.1)).collect());
    apply_menu_edits(&mut shown, &edits, &fewer);
    let expected: Vec<(i64, String)> = fewer.iter().map(|x| (x.0, x.1.to_string())).collect();
    assert_eq!(shown, expected);
}

fn hook_message(message: u32, w_param: usize, inside: Option<bool>) -> MenuHookMessage {
    MenuHookMessage { message, w_param, l_param: 11, local_l_param: 22, inside_tracking: inside, rtl: false, has_delegate: true }
}

#[test]
fn menu_hook_forwarding() {
    let mut s = MenuHookState {
        seen_mouse_down: false,
        seen_key_down: false,
        mouse_in: false,
        current_item_is_first: true,
        current_item_is_last: false,
    };
    let a = on_menu_hook(&mut s, &hook_message(WM_LBUTTONUP, 0, None));
    assert_eq!(a, vec![MenuHookAction::Forward { message: WM_LBUTTONUP, w_param: 0, l_param: 11 }]);
    let a = on_menu_hook(&mut s, &hook_message(WM_KEYUP, 65, None));
    assert_eq!(a, vec![MenuHookAction::Forward { message: WM_KEYUP, w_param: 65, l_param: 11 }]);
    let a = on_menu_hook(&mut s, &hook_message(WM_MOUSEFIRST, 0, Some(true)));
    assert_eq!(a, vec![MenuHookAction::Forward { message: WM_MOUSEFIRST, w_param: 0, l_param: 22 }]);
    assert!(s.mouse_in);
    let a = on_menu_hook(&mut s, &hook_message(WM_MOUSEFIRST, 0, Some(false)));
    assert_eq!(a, vec![MenuHookAction::MouseLeave]);
    let a = on_menu_hook(&mut s, &hook_message(WM_MOUSEFIRST, 0, Some(false)));
    assert!(a.is_empty());
    let a = on_menu_hook(&mut s, &hook_message(WM_KEYDOWN, 0x25, None));
    assert_eq!(a, vec![MenuHookAction::MoveToPreviousMenu]);
    assert!(s.seen_key_down);
    let a = on_menu_hook(&mut s, &hook_message(WM_KEYUP, 65, None));
    assert!(a.is_empty());
}

#[test]
fn window_styles() {
    let style = WindowStyle {
        frame: WindowFrame::Regular,
        can_resize: true,
        can_close: true,
        can_minimize: true,
        can_maximize: true,
        can_full_screen: false,
        always_on_top: false,
    };
    assert_eq!(window_style_bits(0, &style), 0x00CF_0000);
    let no_frame = WindowStyle { frame: WindowFrame::NoFrame, can_resize: false, can_minimize: false, ..style };
    assert_eq!(window_style_bits(0x00CF_0000, &no_frame), 0x8008_0000);
    let change = set_style(0, &style);
    assert_eq!(change.style_bits, 0x00CF_0000);
    assert_eq!(change.close_command, 0xF060);
    assert_eq!(change.close_flags, 0);
    assert_eq!(change.insert_after, -2);
    let fixed = WindowStyle { can_close: false, always_on_top: true, ..style };
    let change = set_style(0, &fixed);
    assert_eq!(change.close_flags, 3);
    assert_eq!(change.insert_after, -1);
    assert_eq!(set_close_enabled(true), 0);
    assert_eq!(set_close_enabled(false), 3);
}

#[test]
fn hit_tests() {
    let r = Rect32 { left: 0, top: 0, right: 100, bottom: 100 };
    assert_eq!(do_hit_test(1, 1, &r, 7), HTTOPLEFT);
    assert_eq!(do_hit_test(99, 99, &r, 7), HTBOTTOMRIGHT);
    assert_eq!(do_hit_test(2, 50, &r, 7), HTLEFT);
    assert_eq!(do_hit_test(50, 50, &r, 7), HTCLIENT);
}

#[test]
fn base_messages() {
    assert_eq!(handle_base_message(WM_CLOSE, false, 0), (BaseMessageEffect::ShouldClose, Some(0)));
    assert_eq!(handle_base_message(WM_NCHITTEST, true, 13), (BaseMessageEffect::NoEffect, Some(13)));
    assert_eq!(handle_base_message(WM_NCHITTEST, false, 13), (BaseMessageEffect::NoEffect, None));
    assert_eq!(handle_child_message(WM_NCHITTEST, true, 13), Some(HTTRANSPARENT));
    assert_eq!(handle_child_message(WM_NCHITTEST, true, HTCLIENT), Some(1));
    assert_eq!(handle_child_message(WM_CLOSE, true, 13), None);
}

#[test]
fn window_positions() {
    let p = WindowPos { x: 10, y: 10, cx: 50, cy: 500 };
    let min = ISize { width: 100, height: 100 };
    let max = ISize { width: 400, height: 400 };
    let a = adjust_position(p, min, ISize { width: 80, height: 0 }, max, ISize { width: 1000, height: 300 });
    assert_eq!(a, WindowPos { x: 10, y: 10, cx: 100, cy: 300 });
    let last = WindowPos { x: 0, y: 0, cx: 120, cy: 120 };
    let fixed = fix_window_drift(p, WindowPos { x: 30, ..a }, Some(last));
    assert_eq!(fixed.x, 0 + 120 - 100);
    assert_eq!(fixed.y, 10);
    assert_eq!(fix_window_drift(p, a, None), a);
    assert_eq!(set_bounds_flags(true, true), 0x14);
    assert_eq!(set_bounds_flags(false, false), 0x17);
    assert!(supported_geometry().max_content_size);
}

#[test]
fn window_state_tracking() {
    let flags = WindowStateFlags {
        maximized: BoolTransition::No,
        minimized: BoolTransition::No,
        full_screen: BoolTransition::No,
        active: false,
    };
    let mut t = WindowStateTracker { flags };
    assert!(t.on_wmsize(2));
    assert_eq!(t.flags.maximized, BoolTransition::Yes);
    assert!(!t.on_wmsize(2));
    assert!(t.on_wmactivate(1));
    assert!(t.flags.active);
    let mut m = MouseState::new();
    m.on_message(MouseMessage { message: 0x0204, w_param: 1, l_param: 2 });
    let up = m.synthetize_mouse_up().unwrap();
    assert_eq!(up.message, 0x0205);
    assert!(m.synthetize_mouse_up().is_none());
}

#[test]
fn window_placement_strings() {
    let mut placement = vec![0u8; 44];
    placement[0] = 44;
    placement[8] = 3;
    let saved = save_position_to_string(Some(&placement));
    let (p, cmd) = restore_position_from_string(&saved, true).unwrap();
    assert_eq!(p, placement);
    assert_eq!(cmd, None);
    let (p, cmd) = restore_position_from_string(&saved, false).unwrap();
    assert_eq!(p[8], 0);
    assert_eq!(cmd, Some(3));
    assert_eq!(save_position_to_string(None), "");
    match restore_position_from_string("AAAA", true) {
        Err(PlatformError::OtherError { error }) => assert_eq!(error, "Invalid placement string"),
        _ => panic!("expected an error"),
    }
    assert!(matches!(restore_position_from_string("!!", true), Err(PlatformError::OtherError { .. })));
}

#[test]
fn drag_effects() {
    assert_eq!(convert_drop_effect_mask(7), vec![DragEffect::Copy, DragEffect::Move, DragEffect::Link]);
    assert_eq!(convert_drop_effect_mask(4), vec![DragEffect::Link]);
    assert_eq!(convert_drag_effect(&DragEffect::Move), 2);
    assert_eq!(convert_drag_effects(&[DragEffect::Copy, DragEffect::Link]), 5);
    assert_eq!(convert_drag_effects(&convert_drop_effect_mask(3)), 3);
}

#[test]
fn drag_data_object() {
    let mut data = std::collections::HashMap::new();
    data.insert(13u32, vec![1u8, 2]);
    let mut object = DataObject::new(data);
    let format = get_format(13);
    assert_eq!(format.tymed, TYMED_HGLOBAL);
    let medium = object.GetData(&format).ok().unwrap();
    assert_eq!(medium.data, vec![1, 2]);
    assert_eq!(object.QueryGetData(&format), Ok(()));
    assert_eq!(object.QueryGetData(&get_format(14)).err(), Some(S_FALSE));
    assert!(object.SetData(&get_format(14), StgMedium { tymed: TYMED_HGLOBAL, data: vec![9] }).is_ok());
    assert_eq!(object.GetData(&get_format(14)).ok().unwrap().data, vec![9]);
    object.detach();
    assert!(object.GetData(&format).is_err());
    let mut e = EnumFORMATETC::new(vec![get_format(1), get_format(2), get_format(3)]);
    let (hr, got) = e.Next(2);
    assert_eq!(hr, S_OK);
    assert_eq!(got.len(), 2);
    let (hr, got) = e.Next(2);
    assert_eq!(hr, S_FALSE);
    assert_eq!(got, vec![get_format(3)]);
    assert_eq!(e.Reset(), S_OK);
    assert_eq!(e.remaining(), 3);
    let formats: Vec<FormatEtc> = vec![];
    assert_eq!(EnumFORMATETC::new(formats).remaining(), 0);
    let source = DropSource::new();
    assert_eq!(source.QueryContinueDrag(false, 1), S_OK);
}

#[test]
fn drag_adapters() {
    let _files = FilesDragDataAdapter::new();
    let urls = UrlsDragDataAdapter::new(5, 6);
    assert_eq!(urls.url_formats(), (6, 5));
    assert_eq!(FallThroughDragDataAdapter::format_name("com.app"), "FlutterInternal:com.app");
    assert_eq!(FallThroughDragDataAdapter::new(9).format, 9);
}

#[test]
fn bitmaps_are_flipped_and_unpremultiplied() {
    let image = ImageData {
        width: 1,
        height: 2,
        bytes_per_row: 4,
        data: vec![100, 50, 0, 200, 10, 20, 30, 255],
    };
    let bits = bitmap_bits(&image);
    assert_eq!(bits, vec![30, 20, 10, 255, 0, 63, 127, 200]);
    let header = bitmap_info_header(&image);
    assert_eq!(header.width, 1);
    assert_eq!(header.size_image, 8);
    let transparent = ImageData { width: 1, height: 1, bytes_per_row: 4, data: vec![9, 9, 9, 0] };
    assert_eq!(bitmap_bits(&transparent), vec![0, 0, 0, 0]);
}

#[test]
fn display_layout() {
    let rects = [
        IRect { x: 0, y: 0, width: 1920, height: 1080 },
        IRect { x: -1920, y: 14, width: 1920, height: 1080 },
        IRect { x: -1920, y: 0, width: 100, height: 100 },
    ];
    let moved = move_to_origin(&rects);
    assert_eq!(moved[0], IRect { x: 1920, y: 0, width: 1920, height: 1080 });
    assert_eq!(moved[1], IRect { x: 0, y: 14, width: 1920, height: 1080 });
    assert_eq!(position_order(&moved), vec![2, 1, 0]);
    let same = [IRect { x: 0, y: 0, width: 1, height: 1 }, IRect { x: 0, y: 0, width: 2, height: 2 }];
    assert_eq!(position_order(&same), vec![0, 1]);
    assert_eq!(screen_id_for_monitor(&[5, 6], &[10, 11], 6), 11);
    assert_eq!(screen_id_for_monitor(&[5, 6], &[10, 11], 7), 0);
}

#[test]
fn screen_ids_are_stable() {
    let mut aux = AuxState::new();
    let a = aux.screen_id(&[65, 0]);
    let b = aux.screen_id(&[66, 0]);
    let a2 = aux.screen_id(&[65, 0]);
    assert_eq!((a, b, a2), (1, 2, 1));
}

#[test]
fn screen_manager_engines() {
    let mut m = ScreenManager::new();
    m.on_method_call(1);
    m.on_method_call(2);
    m.on_method_call(1);
    m.on_engine_destroyed(2);
    assert_eq!(m.screen_configuration_changed(), vec![1]);
    let _p = PlatformScreenManager::new();
    assert_eq!(PlatformScreenManager::main_screen(0, 5), 0);
    assert_eq!(PlatformScreenManager::main_screen(7, 5), 5);
}

#[test]
fn keyboard_maps() {
    assert_eq!(character_from(1, 0x61), Some(0x61));
    assert_eq!(character_from(1, 0x1b), None);
    assert_eq!(character_from(0, 0x61), None);
    let letters: Vec<Option<u16>> = (0..25).map(|i| Some(0x61 + i)).collect();
    let digits: Vec<Option<u16>> = (0..9).map(|i| Some(0x30 + i)).collect();
    assert!(is_ascii_capable(&letters, &digits, true));
    let mut bad_digits = digits.clone();
    bad_digits[3] = Some(0x2b);
    assert!(is_ascii_capable(&letters, &bad_digits, false));
    assert!(!is_ascii_capable(&letters, &bad_digits, true));
    let mut bad_letters = letters.clone();
    bad_letters[0] = None;
    assert!(!is_ascii_capable(&bad_letters, &digits, false));
    assert_eq!(choose_keyboard_layout(1, true, &[2, 3], &[true, true], &[true, true]), 1);
    assert_eq!(choose_keyboard_layout(1, false, &[2, 3], &[false, true], &[true, true]), 3);
    assert_eq!(choose_keyboard_layout(1, false, &[2, 3], &[false, false], &[false, true]), 3);
    assert_eq!(choose_keyboard_layout(1, false, &[2, 3], &[false, false], &[false, false]), 1);
    let entry = KeyMapEntry { platform: 30, physical: 0x70004, logical: Some(0x61) };
    let key = key_from_entry(&entry, Some(0x71), Some(0x51), Some(0x40), None);
    assert_eq!(key.logical, Some(0x71));
    assert_eq!(key.logical_shift, Some(0x51));
    assert_eq!(key.logical_alt, Some(0x40));
    assert_eq!(key.logical_alt_shift, None);
    let plain = key_from_entry(&entry, None, Some(0x51), None, None);
    assert_eq!(plain.logical, Some(0x61));
    assert_eq!(plain.logical_shift, None);
    let mut cache = PlatformKeyboardMap::new();
    assert!(cache.cached_map(4).is_none());
    cache.cache_map(4, KeyboardMap { keys: vec![key] });
    assert_eq!(cache.cached_map(4).unwrap().keys.len(), 1);
}

#[test]
fn textures_hand_over_frames() {
    assert!(PIXEL_BUFFER_FORMAT == PixelBufferFormat::RGBA);
    assert!(PixelBuffer::format() == PixelBufferFormat::RGBA);
    let mut t = PlatformTexture::new();
    assert!(t.frame_buffer().is_none());
    t.set_payload(PixelBuffer { width: 1, height: 1, data: vec![1, 2, 3, 4] });
    assert_eq!(t.frame_buffer().unwrap().data, vec![1, 2, 3, 4]);
    assert_eq!(t.frame_buffer().unwrap().width, 1);
    assert!(matches!(
        Texture::<PixelBuffer>::new(false, 3, None),
        Err(TextureError::InvalidContext)
    ));
    assert!(matches!(
        Texture::<PixelBuffer>::new(true, 3, None),
        Err(TextureError::InvalidEngineHandle)
    ));
    let mut texture: Texture<PixelBuffer> = Texture::new(true, 3, Some(42)).unwrap();
    assert_eq!(texture.id(), 42);
    assert_eq!(texture.update(PixelBuffer { width: 2, height: 1, data: vec![0; 8] }, true), Some(42));
    assert_eq!(texture.frame_buffer().unwrap().width, 2);
    assert_eq!(texture.update(PixelBuffer { width: 5, height: 1, data: vec![0; 20] }, false), None);
    assert_eq!(texture.frame_buffer().unwrap().width, 5);
}

#[test]
fn binary_messenger_channels() {
    let engine = PlatformEngine::new(1);
    let mut m = engine.new_binary_messenger(7);
    assert_eq!(m.handle(), 7);
    m.register_channel_handler("a");
    m.register_channel_handler("b");
    m.register_channel_handler("a");
    assert_eq!(m.active_channels(), vec!["a".to_string(), "b".to_string()]);
    m.unregister_channel_handler("a");
    assert!(!m.is_registered("a"));
    assert!(m.is_registered("b"));
    assert!(PlatformBinaryMessenger::send_result("x", true).is_ok());
    match PlatformBinaryMessenger::send_result("x", false) {
        Err(PlatformError::SendMessageFailure { channel }) => assert_eq!(channel, "x"),
        _ => panic!("expected a send failure"),
    }
    let fresh = PlatformBinaryMessenger::from_handle(3);
    assert!(fresh.active_channels().is_empty());
}

#[test]
fn windows_errors() {
    assert_eq!(HRESULT_FROM_WIN32(5), 0x80070005);
    assert_eq!(HRESULT_FROM_WIN32(0), 0);
    assert_eq!(HRESULT_FROM_WIN32(0x80004005), 0x80004005);
    assert!(matches!(windows_error_from_last_error(2), PlatformError::WindowsError(0x80070002)));
}

#[test]
fn file_dialog_requests() {
    let s = FileOpenDialogService::new();
    assert_eq!(s.on_method_call("showFileOpenDialog", true), FileDialogAction::OpenDialog);
    assert_eq!(s.on_method_call("showFileOpenDialog", false), FileDialogAction::NoWindow);
    assert_eq!(s.on_method_call("other", true), FileDialogAction::InvalidMethod);
}

#[test]
fn window_message_steps() {
    assert_eq!(
        window_steps_before_controller(WM_SIZE),
        vec![WindowMessageAction::LayoutChild, WindowMessageAction::UpdateSizeState]
    );
    assert!(window_steps_before_controller(WM_SETFOCUS).is_empty());
    assert_eq!(window_steps_after_controller(WM_SETFOCUS, 0, true, false), vec![WindowMessageAction::FocusChild]);
    assert_eq!(
        window_steps_after_controller(WM_ACTIVATE, 1, true, false),
        vec![WindowMessageAction::UpdateActivationState]
    );
    assert_eq!(
        window_steps_after_controller(WM_NCCALCSIZE, 1, false, false),
        vec![WindowMessageAction::AnswerWithDefault, WindowMessageAction::ResizeChildToProposedClient]
    );
    assert_eq!(
        window_steps_after_controller(WM_NCCALCSIZE, 1, true, true),
        vec![WindowMessageAction::ResizeChildToProposedClient]
    );
    assert!(window_steps_after_controller(WM_NCCALCSIZE, 1, true, false).is_empty());
    assert!(window_steps_after_controller(WM_NCCALCSIZE, 0, false, true).is_empty());
    assert_eq!(window_steps_after_controller(WM_EXITSIZEMOVE, 0, true, false), vec![WindowMessageAction::ForceRedraw]);
}

#[test]
fn popup_menu_outcomes() {
    let s = MenuHookState::initial();
    assert!(!s.seen_mouse_down && !s.seen_key_down && !s.mouse_in);
    assert!(s.current_item_is_first && s.current_item_is_last);
    assert_eq!(popup_track_flags(), 0x140);
    let o = popup_outcome(7, 3, true);
    assert_eq!(o.action, Some(MenuAction { menu: 3, command: 7 }));
    assert!(o.item_selected);
    assert_eq!(popup_outcome(7, 3, false).action, None);
    let none = popup_outcome(0, 3, true);
    assert_eq!(none.action, None);
    assert!(!none.item_selected);
    let negative = popup_outcome(-1, 3, true);
    assert_eq!(negative.action, None);
    assert!(negative.item_selected);
}
