use genos::display::geometry::{Point, Rect};
use genos::display::shell_buffer::{FixedText, LineKind};
use genos::display::windows::{DisplayManager, WindowKind, WindowManager, DIRTY_CAP, INPUT_CAP};
use genos::input::MouseState;

fn manager() -> WindowManager {
    WindowManager::new(1024, 768)
}

#[test]
fn terminal_starts_focused() {
    let m = manager();
    assert_eq!(m.desk.focus, WindowKind::Terminal);
    assert!(m.desk.terminal_open);
    assert!(m.shell_input_active());
    assert!(m.dirty.is_empty());
}

#[test]
fn focus_cycles_through_open_windows() {
    let mut m = manager();
    m.open_files();
    assert_eq!(m.desk.focus, WindowKind::Files);
    assert!(!m.shell_input_active());
    m.open_game();
    m.cycle_focus();
    assert_eq!(m.desk.focus, WindowKind::Terminal);
    m.cycle_focus();
    assert_eq!(m.desk.focus, WindowKind::Files);
    m.cycle_focus();
    assert_eq!(m.desk.focus, WindowKind::Game);
}

#[test]
fn closing_focus_moves_to_first_open_window() {
    let mut m = manager();
    m.open_about();
    m.close_window(WindowKind::Terminal);
    assert_eq!(m.desk.focus, WindowKind::About);
    m.dismiss_focused();
    assert!(!m.desk.about_open);
    assert_eq!(m.desk.focus, WindowKind::Terminal);
    m.dismiss_focused();
    assert_eq!(m.desk.focus, WindowKind::Terminal);
}

#[test]
fn start_menu_opens_windows_by_row() {
    let mut m = manager();
    m.handle_mouse_down(Point::new(20, 730));
    assert!(m.desk.start_open);
    m.handle_mouse_down(Point::new(40, 382 + 72 + 46 + 10));
    assert!(!m.desk.start_open);
    assert!(m.desk.files_open);
    assert_eq!(m.desk.focus, WindowKind::Files);
    m.handle_mouse_down(Point::new(20, 730));
    m.dismiss_focused();
    assert!(!m.desk.start_open);
    assert!(m.desk.files_open);
}

#[test]
fn taskbar_and_icons_open_windows() {
    let mut m = manager();
    m.handle_mouse_down(Point::new(440, 730));
    assert!(m.desk.game_open);
    assert_eq!(m.desk.focus, WindowKind::Game);
    m.handle_mouse_down(Point::new(30, 200));
    assert!(m.desk.task_manager_open);
    assert_eq!(m.desk.focus, WindowKind::TaskManager);
}

#[test]
fn close_button_closes_window() {
    let mut m = manager();
    m.open_files();
    m.handle_mouse_down(Point::new(206 + 530 - 30, 112 + 10));
    assert!(!m.desk.files_open);
    assert_eq!(m.desk.focus, WindowKind::Terminal);
}

#[test]
fn dragging_moves_window_and_keeps_it_on_screen() {
    let mut m = manager();
    m.open_files();
    m.handle_mouse_down(Point::new(300, 120));
    assert_eq!(m.desk.drag_window, Some(WindowKind::Files));
    m.handle_mouse_move(Point::new(350, 170), true);
    assert_eq!(m.desk.files_offset, Point::new(50, 50));
    m.handle_mouse_move(Point::new(-1000, 170), true);
    assert_eq!(m.desk.files_offset, Point::new(8 - 206, 50));
    m.handle_mouse_move(Point::new(-1000, 170), false);
    assert_eq!(m.desk.drag_window, None);
}

#[test]
fn file_rows_select() {
    let mut m = manager();
    m.desk.files_len = 3;
    m.open_files();
    // The body starts 45 below the window; rows start 70 into the body.
    m.handle_mouse_down(Point::new(300, 112 + 45 + 70 + 34 + 5));
    assert_eq!(m.desk.selected_file, 1);
    m.handle_mouse_down(Point::new(300, 112 + 45 + 70 + 34 * 5 + 5));
    assert_eq!(m.desk.selected_file, 1);
}

#[test]
fn damage_merges_and_clips() {
    let mut m = manager();
    m.invalidate(Rect::new(10, 10, 20, 20));
    m.invalidate(Rect::new(15, 15, 20, 20));
    assert_eq!(m.dirty, vec![Rect::new(10, 10, 25, 25)]);
    m.invalidate(Rect::new(-100, -100, 10, 10));
    assert_eq!(m.dirty.len(), 1);
    m.invalidate(Rect::new(1000, 700, 100, 100));
    assert_eq!(m.dirty[1], Rect::new(1000, 700, 24, 68));
}

#[test]
fn full_damage_list_collapses() {
    let mut m = manager();
    for i in 0..DIRTY_CAP as i32 {
        m.invalidate(Rect::new(i * 40, 0, 10, 10));
    }
    assert_eq!(m.dirty.len(), DIRTY_CAP);
    m.invalidate(Rect::new(0, 500, 10, 10));
    assert_eq!(m.dirty, vec![Rect::new(0, 0, 10, 510)]);
}

#[test]
fn stats_and_game_refresh_on_schedule() {
    let mut m = manager();
    m.refresh_stats_if_due(10);
    assert_eq!(m.last_stats_refresh, 0);
    m.refresh_stats_if_due(25);
    assert_eq!(m.last_stats_refresh, 25);
    m.animate_if_due(3);
    assert_eq!(m.game_frame, 0);
    m.open_game();
    m.animate_if_due(3);
    m.animate_if_due(3);
    assert_eq!(m.game_frame, 1);
    assert_eq!(m.last_game_refresh, 3);
}

#[test]
fn display_manager_greets() {
    let m = DisplayManager::new(1024, 768, 3, 1 << 30, 4);
    assert_eq!(m.shell.len(), 2);
    assert_eq!(m.shell.line(0).unwrap().kind, LineKind::Status);
    assert_eq!(m.shell.line(0).unwrap().text.as_str(), "Display manager online");
    assert_eq!(m.shell.line(1).unwrap().text.as_str(), "Type help to explore GenOS.");
    assert_eq!(m.status.as_str(), "ready");
    assert_eq!(m.clock.as_str(), "--:--:--");
    assert_eq!(m.vfs_files, 4);
    assert!(m.shell_input_active());
}

#[test]
fn input_line_takes_printable_bytes() {
    let mut m = DisplayManager::new(1024, 768, 3, 0, 0);
    assert!(m.input_push(b'l'));
    assert!(m.input_push(b's'));
    assert!(!m.input_push(0x07));
    assert!(!m.input_push(0x80));
    assert_eq!(m.input.as_str(), "ls");
    assert!(m.input_backspace());
    assert_eq!(m.input.as_str(), "l");
    let taken = m.take_input();
    assert_eq!(taken.as_str(), "l");
    assert!(m.input.is_empty());
    assert!(!m.input_backspace());
}

#[test]
fn input_line_is_capped() {
    let mut m = DisplayManager::new(1024, 768, 3, 0, 0);
    for _ in 0..INPUT_CAP {
        assert!(m.input_push(b'x'));
    }
    assert!(!m.input_push(b'x'));
    assert_eq!(m.input.len(), INPUT_CAP);
}

#[test]
fn clock_and_status_update_taskbar() {
    let mut m = DisplayManager::new(1024, 768, 3, 0, 0);
    let dirty = m.windows.dirty.len();
    m.set_clock(FixedText::from_str("--:--:--"));
    assert_eq!(m.windows.dirty.len(), dirty);
    m.set_clock(FixedText::from_str("12:00:00"));
    assert_eq!(m.clock.as_str(), "12:00:00");
    m.set_status("busy");
    assert_eq!(m.status.as_str(), "busy");
    m.clear_shell();
    assert!(m.shell.is_empty());
    m.push_fixed(LineKind::Error, FixedText::from_str("oops"));
    assert_eq!(m.shell.line(0).unwrap().kind, LineKind::Error);
}

#[test]
fn pointer_moves_mark_cursor() {
    let mut m = DisplayManager::new(1024, 768, 3, 0, 0);
    m.cursor_dirty = false;
    let mut mouse = MouseState::new(Point::new(0, 0));
    m.sync_stats(mouse, 2, 5, 99);
    assert!(!m.cursor_dirty);
    assert_eq!((m.event_depth, m.vfs_files, m.uptime_ticks), (2, 5, 99));
    mouse.position = Point::new(10, 20);
    m.sync_stats(mouse, 2, 5, 100);
    assert!(m.cursor_dirty);
    assert_eq!(m.cursor, Point::new(10, 20));
    assert_eq!(m.previous_cursor, Point::new(0, 0));
}
