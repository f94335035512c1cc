use nativeshell::window::WindowHandle;
use nativeshell::window_manager::WindowManager;

#[test]
fn window_manager_lifecycle() {
    let mut m = WindowManager::new();
    let first = m.next_window_handle();
    assert_eq!(first, WindowHandle(1));
    assert_eq!(m.parent_engine(None), None);
    m.add_window(first, 10, None);
    assert_eq!(m.get_engine_for_window(first), Some(10));
    assert_eq!(m.window_for_engine(10), Some(first));
    assert_eq!(m.window_for_engine(11), None);

    let second = m.next_window_handle();
    assert_eq!(second, WindowHandle(2));
    assert_eq!(m.parent_engine(Some(first)), Some(10));
    assert_eq!(m.parent_engine(Some(WindowHandle(7))), None);
    m.add_window(second, 11, Some(first));
    assert!(m.broadcast_targets().is_empty());

    let init = m.init_window(second);
    let mut all = init.all_windows.clone();
    all.sort();
    assert_eq!(all, vec![1, 2]);
    assert_eq!(init.current_window, second);
    assert_eq!(init.parent_window, Some(first));
    assert_eq!(m.broadcast_targets(), vec![2]);

    let init = m.init_window(first);
    assert_eq!(init.parent_window, None);
    let mut targets = m.broadcast_targets();
    targets.sort();
    assert_eq!(targets, vec![1, 2]);

    assert_eq!(m.remove_window(second), Some(11));
    assert_eq!(m.remove_window(second), None);
    assert_eq!(m.get_engine_for_window(second), None);
    assert_eq!(m.broadcast_targets(), vec![1]);
    // The engine keeps pointing at the window it was created for.
    assert_eq!(m.window_for_engine(11), Some(second));
    assert_eq!(m.next_window_handle(), WindowHandle(3));
}
