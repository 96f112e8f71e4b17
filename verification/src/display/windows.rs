//! The desktop's window management: which windows are open and focused,
//! where each one lies, what a click or a drag does to them, and which
//! parts of the screen need drawing again. Drawing itself is the
//! framebuffer's.
use vstd::prelude::*;
use crate::display::geometry::{Point, Rect};
use crate::display::shell_buffer::{
    append_capped, stored, FixedText, LineKind, ShellBuffer, ShellLine, MAX_SCROLLBACK_LINES,
};
use crate::input::MouseState;
use vstd::string::StringSliceAdditionalSpecFns;

verus! {

/// How many damaged rectangles are kept before they are merged.
pub const DIRTY_CAP: usize = 16;
/// The largest screen side handled: far beyond any display mode, and
/// small enough that a window's coordinates, moved by the furthest drag,
/// still fit 32 bits.
pub const MAX_SCREEN_SIDE: i32 = 16777216;
/// How far a window is ever moved from where it starts.
pub const OFFSET_LIMIT: i32 = 67108864;
/// How far from the origin the two ends of a drag can lie: the pointer
/// is clamped to the screen, and within this range the distance dragged
/// and the window moved by it fit 32 bits.
pub const POINT_LIMIT: i32 = 67108864;
/// Ticks between refreshes of the statistics.
pub const STATS_REFRESH_TICKS: u64 = 25;

#[derive(Clone, Copy, Debug, PartialEq, Eq, Structural)]
pub enum WindowKind {
    Terminal,
    Files,
    TaskManager,
    About,
    Game,
    StartMenu,
}

/// Where windows stand, apart from what needs drawing.
#[derive(Clone, Copy, Debug, PartialEq, Eq)]
pub struct Desktop {
    pub width: i32,
    pub height: i32,
    pub start_open: bool,
    pub terminal_open: bool,
    pub files_open: bool,
    pub task_manager_open: bool,
    pub about_open: bool,
    pub game_open: bool,
    pub focus: WindowKind,
    pub files_len: usize,
    pub selected_file: usize,
    pub drag_window: Option<WindowKind>,
    pub drag_anchor: Point,
    pub terminal_offset: Point,
    pub files_offset: Point,
    pub task_manager_offset: Point,
    pub game_offset: Point,
    pub about_offset: Point,
}

pub open spec fn small_point(p: Point, limit: int) -> bool {
    -limit <= p.x <= limit && -limit <= p.y <= limit
}

pub open spec fn rect(x: int, y: int, w: int, h: int) -> Rect {
    Rect { x: x as i32, y: y as i32, width: w as i32, height: h as i32 }
}

/// The five windows, in the order focus passes between them.
pub open spec fn window_order(i: int) -> WindowKind {
    if i == 0 {
        WindowKind::Terminal
    } else if i == 1 {
        WindowKind::Files
    } else if i == 2 {
        WindowKind::TaskManager
    } else if i == 3 {
        WindowKind::Game
    } else {
        WindowKind::About
    }
}

impl Desktop {
    /// The screen fits the handled size, and every window lies within the
    /// offset limit of where it starts.
    pub open spec fn wf(self) -> bool {
        &&& 0 <= self.width <= MAX_SCREEN_SIDE
        &&& 0 <= self.height <= MAX_SCREEN_SIDE
        &&& small_point(self.terminal_offset, OFFSET_LIMIT as int)
        &&& small_point(self.files_offset, OFFSET_LIMIT as int)
        &&& small_point(self.task_manager_offset, OFFSET_LIMIT as int)
        &&& small_point(self.game_offset, OFFSET_LIMIT as int)
        &&& small_point(self.about_offset, OFFSET_LIMIT as int)
    }

    /// The screen fits the handled size and no window lies further than a
    /// few pointer spans from where it starts: enough for every rectangle
    /// computed from them to fit 32 bits.
    pub open spec fn roomy(self) -> bool {
        &&& 0 <= self.width <= MAX_SCREEN_SIDE
        &&& 0 <= self.height <= MAX_SCREEN_SIDE
        &&& small_point(self.terminal_offset, 268435456)
        &&& small_point(self.files_offset, 268435456)
        &&& small_point(self.task_manager_offset, 268435456)
        &&& small_point(self.game_offset, 268435456)
        &&& small_point(self.about_offset, 268435456)
    }

    /// The focus is an open window, or the terminal when none is open.
    pub open spec fn focus_ok(self) -> bool {
        &&& self.focus != WindowKind::StartMenu
        &&& (self.spec_is_open(self.focus) || (!self.terminal_open && !self.files_open
            && !self.task_manager_open && !self.game_open && !self.about_open && self.focus
            == WindowKind::Terminal))
    }

    pub open spec fn spec_is_open(self, kind: WindowKind) -> bool {
        match kind {
            WindowKind::Terminal => self.terminal_open,
            WindowKind::Files => self.files_open,
            WindowKind::TaskManager => self.task_manager_open,
            WindowKind::Game => self.game_open,
            WindowKind::About => self.about_open,
            WindowKind::StartMenu => self.start_open,
        }
    }

    pub open spec fn screen(self) -> Rect {
        rect(0, 0, self.width as int, self.height as int)
    }

    pub open spec fn spec_taskbar(self) -> Rect {
        rect(0, self.height - 52, self.width as int, 52)
    }

    pub open spec fn spec_start_button(self) -> Rect {
        rect(12, self.height - 44, 102, 36)
    }

    /// The taskbar button of window `i` of the focus order.
    pub open spec fn spec_taskbar_button(self, i: int) -> Rect {
        rect(128 + 102 * i, self.height - 44, 94, 36)
    }

    pub open spec fn spec_start_panel(self) -> Rect {
        rect(12, self.height - 386, 314, 326)
    }

    pub open spec fn spec_system_widget(self) -> Rect {
        rect(self.width - 312, 18, 292, 42)
    }

    pub open spec fn spec_window(self, kind: WindowKind) -> Rect {
        match kind {
            WindowKind::Terminal => {
                let w = if self.task_manager_open { self.width - 586 } else { self.width - 224 };
                rect(
                    152 + self.terminal_offset.x,
                    72 + self.terminal_offset.y,
                    if w >= 470 { w } else { 470 },
                    self.height - 150,
                )
            },
            WindowKind::Files => rect(206 + self.files_offset.x, 112 + self.files_offset.y, 530, 394),
            WindowKind::TaskManager => rect(
                self.width - 402 + self.task_manager_offset.x,
                72 + self.task_manager_offset.y,
                372,
                self.height - 150,
            ),
            WindowKind::Game => {
                let y = if self.height - 330 < 130 {
                    130
                } else if self.height - 330 > 460 {
                    460
                } else {
                    self.height - 330
                };
                rect(246 + self.game_offset.x, y + self.game_offset.y, 560, 270)
            },
            WindowKind::About => rect(
                self.width - 506 + self.about_offset.x,
                self.height - 350 + self.about_offset.y,
                456,
                240,
            ),
            WindowKind::StartMenu => self.spec_start_panel(),
        }
    }

    pub open spec fn spec_titlebar(self, kind: WindowKind) -> Rect {
        let r = self.spec_window(kind);
        rect(r.x as int, r.y as int, r.width as int, 38)
    }

    pub open spec fn spec_close_button(self, kind: WindowKind) -> Rect {
        let r = self.spec_window(kind);
        rect(r.x + r.width - 34, r.y + 8, 22, 22)
    }

    pub open spec fn spec_files_body(self) -> Rect {
        let r = self.spec_window(WindowKind::Files);
        rect(r.x + 8, r.y + 45, r.width - 16, r.height - 53)
    }

    pub open spec fn spec_input(self) -> Rect {
        let r = self.spec_window(WindowKind::Terminal);
        rect(r.x + 20, r.y + r.height - 62, r.width - 40, 42)
    }

    /// The desktop icon of window `i` of the focus order.
    pub open spec fn spec_icon(self, i: int) -> Rect {
        rect(20, 28 + 84 * i, 100, 72)
    }
}

/// Every coordinate of a window, and of the rectangles drawn from it,
/// stays well inside 32 bits.
pub proof fn lemma_window_bounds(d: Desktop, kind: WindowKind)
    requires
        d.roomy(),
    ensures
        ({
            let r = d.spec_window(kind);
            &&& -310000000 <= r.x <= 310000000 && -310000000 <= r.y <= 310000000
            &&& 0 <= r.width <= 20000000 && -200 <= r.height <= 20000000
        }),
{
}

impl Desktop {
    pub fn taskbar_rect(&self) -> (r: Rect)
        requires
            self.roomy(),
        ensures
            r == self.spec_taskbar(),
    {
        Rect::new(0, self.height - 52, self.width, 52)
    }

    pub fn start_button_rect(&self) -> (r: Rect)
        requires
            self.roomy(),
        ensures
            r == self.spec_start_button(),
    {
        Rect::new(12, self.height - 44, 102, 36)
    }

    pub fn start_panel_rect(&self) -> (r: Rect)
        requires
            self.roomy(),
        ensures
            r == self.spec_start_panel(),
    {
        Rect::new(12, self.height - 386, 314, 326)
    }

    pub fn system_widget_rect(&self) -> (r: Rect)
        requires
            self.roomy(),
        ensures
            r == self.spec_system_widget(),
    {
        Rect::new(self.width - 312, 18, 292, 42)
    }

    pub fn window_rect(&self, kind: WindowKind) -> (r: Rect)
        requires
            self.roomy(),
        ensures
            r == self.spec_window(kind),
    {
        match kind {
            WindowKind::Terminal => {
                let w = if self.task_manager_open { self.width - 586 } else { self.width - 224 };
                Rect::new(
                    152 + self.terminal_offset.x,
                    72 + self.terminal_offset.y,
                    if w >= 470 { w } else { 470 },
                    self.height - 150,
                )
            },
            WindowKind::Files => Rect::new(206 + self.files_offset.x, 112 + self.files_offset.y, 530, 394),
            WindowKind::TaskManager => Rect::new(
                self.width - 402 + self.task_manager_offset.x,
                72 + self.task_manager_offset.y,
                372,
                self.height - 150,
            ),
            WindowKind::Game => {
                let base = self.height - 330;
                let y = if base < 130 { 130 } else if base > 460 { 460 } else { base };
                Rect::new(246 + self.game_offset.x, y + self.game_offset.y, 560, 270)
            },
            WindowKind::About => Rect::new(
                self.width - 506 + self.about_offset.x,
                self.height - 350 + self.about_offset.y,
                456,
                240,
            ),
            WindowKind::StartMenu => self.start_panel_rect(),
        }
    }

    pub fn window_is_open(&self, kind: WindowKind) -> (r: bool)
        ensures
            r == self.spec_is_open(kind),
    {
        match kind {
            WindowKind::Terminal => self.terminal_open,
            WindowKind::Files => self.files_open,
            WindowKind::TaskManager => self.task_manager_open,
            WindowKind::Game => self.game_open,
            WindowKind::About => self.about_open,
            WindowKind::StartMenu => self.start_open,
        }
    }

    pub fn titlebar_rect(&self, kind: WindowKind) -> (r: Rect)
        requires
            self.roomy(),
        ensures
            r == self.spec_titlebar(kind),
    {
        let w = self.window_rect(kind);
        Rect::new(w.x, w.y, w.width, 38)
    }

    pub fn close_button_rect(&self, kind: WindowKind) -> (r: Rect)
        requires
            self.roomy(),
        ensures
            r == self.spec_close_button(kind),
    {
        let w = self.window_rect(kind);
        Rect::new(w.x + w.width - 34, w.y + 8, 22, 22)
    }

    pub fn files_body_rect(&self) -> (r: Rect)
        requires
            self.roomy(),
        ensures
            r == self.spec_files_body(),
    {
        let w = self.window_rect(WindowKind::Files);
        Rect::new(w.x + 8, w.y + 45, w.width - 16, w.height - 53)
    }

    pub fn input_rect(&self) -> (r: Rect)
        requires
            self.roomy(),
        ensures
            r == self.spec_input(),
    {
        let w = self.window_rect(WindowKind::Terminal);
        Rect::new(w.x + 20, w.y + w.height - 62, w.width - 40, 42)
    }
}

/// `a / b` rounded toward zero, as integer division does on machine
/// integers.
pub open spec fn trunc_div(a: int, b: int) -> int {
    if a >= 0 { a / b } else { -((-a) / b) }
}

/// The position of a window in the focus order; the start menu, which is
/// not in it, counts as the first.
pub open spec fn order_position(kind: WindowKind) -> int {
    match kind {
        WindowKind::Terminal => 0,
        WindowKind::Files => 1,
        WindowKind::TaskManager => 2,
        WindowKind::Game => 3,
        WindowKind::About => 4,
        WindowKind::StartMenu => 0,
    }
}

impl Desktop {
    /// The window opened and focused.
    pub open spec fn spec_open(self, kind: WindowKind) -> Desktop {
        match kind {
            WindowKind::Terminal => Desktop { terminal_open: true, focus: kind, ..self },
            WindowKind::Files => Desktop { files_open: true, focus: kind, ..self },
            WindowKind::TaskManager => Desktop { task_manager_open: true, focus: kind, ..self },
            WindowKind::Game => Desktop { game_open: true, focus: kind, ..self },
            WindowKind::About => Desktop { about_open: true, focus: kind, ..self },
            WindowKind::StartMenu => self,
        }
    }

    /// The window opened from the taskbar or the desktop: the start menu
    /// closes.
    #[verifier::opaque]
    pub open spec fn spec_open_window(self, kind: WindowKind) -> Desktop {
        Desktop { start_open: false, ..self.spec_open(kind) }
    }

    /// The first open window of the focus order from position `i`.
    pub open spec fn first_open_from(self, i: int) -> Option<WindowKind>
        decreases 5 - i,
    {
        if i >= 5 || i < 0 {
            None
        } else if self.spec_is_open(window_order(i)) {
            Some(window_order(i))
        } else {
            self.first_open_from(i + 1)
        }
    }

    /// The window closed, the drag dropped, and the focus on the first
    /// open window of the focus order, or the terminal.
    #[verifier::opaque]
    pub open spec fn spec_close(self, kind: WindowKind) -> Desktop {
        let closed = match kind {
            WindowKind::Terminal => Desktop { terminal_open: false, ..self },
            WindowKind::Files => Desktop { files_open: false, ..self },
            WindowKind::TaskManager => Desktop { task_manager_open: false, ..self },
            WindowKind::Game => Desktop { game_open: false, ..self },
            WindowKind::About => Desktop { about_open: false, ..self },
            WindowKind::StartMenu => Desktop { start_open: false, ..self },
        };
        Desktop {
            drag_window: None,
            focus: match closed.first_open_from(0) {
                Some(k) => k,
                None => WindowKind::Terminal,
            },
            ..closed
        }
    }

    /// The next open window after the focus, `step` and more places on in
    /// the focus order, wrapping round.
    pub open spec fn next_open(self, step: int) -> Option<WindowKind>
        decreases 6 - step,
    {
        if step > 5 || step < 1 {
            None
        } else {
            let candidate = window_order((order_position(self.focus) + step) % 5);
            if self.spec_is_open(candidate) {
                Some(candidate)
            } else {
                self.next_open(step + 1)
            }
        }
    }

    /// The focus passed to the next open window of the focus order.
    pub open spec fn spec_cycle(self) -> Desktop {
        match self.next_open(1) {
            Some(k) => Desktop { focus: k, ..self },
            None => self,
        }
    }

    /// A click at `p` inside window `kind`: its close button closes it;
    /// elsewhere it takes the focus, a click on a row of the file list
    /// selects that file, and a click on the title bar starts a drag.
    #[verifier::opaque]
    pub open spec fn spec_activate(self, kind: WindowKind, p: Point) -> Desktop {
        if self.spec_close_button(kind).spec_contains(p) {
            self.spec_close(kind)
        } else {
            let body = self.spec_files_body();
            let focused = Desktop { focus: kind, ..self };
            let selected = if kind == WindowKind::Files && body.spec_contains(p) && p.y >= body.y + 70
                && (p.y - (body.y + 70)) / 34 < self.files_len {
                Desktop { selected_file: ((p.y - (body.y + 70)) / 34) as usize, ..focused }
            } else {
                focused
            };
            if self.spec_titlebar(kind).spec_contains(p) {
                Desktop { drag_window: Some(kind), drag_anchor: p, ..selected }
            } else {
                selected
            }
        }
    }

    /// The taskbar button under `p`, if any.
    pub open spec fn spec_taskbar_button_at(self, p: Point) -> Option<WindowKind> {
        if self.spec_taskbar_button(0).spec_contains(p) {
            Some(window_order(0))
        } else if self.spec_taskbar_button(1).spec_contains(p) {
            Some(window_order(1))
        } else if self.spec_taskbar_button(2).spec_contains(p) {
            Some(window_order(2))
        } else if self.spec_taskbar_button(3).spec_contains(p) {
            Some(window_order(3))
        } else if self.spec_taskbar_button(4).spec_contains(p) {
            Some(window_order(4))
        } else {
            None
        }
    }

    /// The desktop icon under `p`, if any.
    pub open spec fn spec_icon_at(self, p: Point) -> Option<WindowKind> {
        if self.spec_icon(0).spec_contains(p) {
            Some(window_order(0))
        } else if self.spec_icon(1).spec_contains(p) {
            Some(window_order(1))
        } else if self.spec_icon(2).spec_contains(p) {
            Some(window_order(2))
        } else if self.spec_icon(3).spec_contains(p) {
            Some(window_order(3))
        } else if self.spec_icon(4).spec_contains(p) {
            Some(window_order(4))
        } else {
            None
        }
    }

    /// The window under `p` other than the focused one, searched from the
    /// top of the stack: about, game, task manager, files, terminal.
    pub open spec fn spec_window_below(self, p: Point) -> Option<WindowKind> {
        let hit = |k: WindowKind| k != self.focus && self.spec_is_open(k) && self.spec_window(k).spec_contains(p);
        if hit(WindowKind::About) {
            Some(WindowKind::About)
        } else if hit(WindowKind::Game) {
            Some(WindowKind::Game)
        } else if hit(WindowKind::TaskManager) {
            Some(WindowKind::TaskManager)
        } else if hit(WindowKind::Files) {
            Some(WindowKind::Files)
        } else if hit(WindowKind::Terminal) {
            Some(WindowKind::Terminal)
        } else {
            None
        }
    }

    /// A press of the left button at `p`: the start button toggles the
    /// start menu; a taskbar button opens its window; a row of the open
    /// start menu opens its window and closes the menu; a click in the
    /// focused window or, failing that, in the topmost other window
    /// activates it there; a desktop icon opens its window; anywhere else
    /// closes the start menu. Any drag ends unless a title bar starts one.
    pub open spec fn spec_mouse_down(self, p: Point) -> Desktop {
        if self.spec_start_button().spec_contains(p) {
            Desktop { start_open: !self.start_open, drag_window: None, ..self }
        } else if self.spec_taskbar_button_at(p) is Some {
            self.spec_open_window(self.spec_taskbar_button_at(p)->0)
        } else if self.start_open && self.spec_start_panel().spec_contains(p) {
            let row = trunc_div(p.y - (self.spec_start_panel().y + 72), 46);
            let opened = if 0 <= row <= 4 { self.spec_open(window_order(row)) } else { self };
            Desktop { start_open: false, ..opened }
        } else if self.spec_is_open(self.focus) && self.spec_window(self.focus).spec_contains(p) {
            self.spec_activate(self.focus, p)
        } else if self.spec_window_below(p) is Some {
            self.spec_activate(self.spec_window_below(p)->0, p)
        } else if self.spec_icon_at(p) is Some {
            self.spec_open_window(self.spec_icon_at(p)->0)
        } else {
            Desktop { start_open: false, drag_window: None, ..self }
        }
    }

    pub open spec fn offset_of(self, kind: WindowKind) -> Point {
        match kind {
            WindowKind::Terminal => self.terminal_offset,
            WindowKind::Files => self.files_offset,
            WindowKind::TaskManager => self.task_manager_offset,
            WindowKind::Game => self.game_offset,
            WindowKind::About => self.about_offset,
            WindowKind::StartMenu => Point { x: 0, y: 0 },
        }
    }

    pub open spec fn with_offset(self, kind: WindowKind, o: Point) -> Desktop {
        match kind {
            WindowKind::Terminal => Desktop { terminal_offset: o, ..self },
            WindowKind::Files => Desktop { files_offset: o, ..self },
            WindowKind::TaskManager => Desktop { task_manager_offset: o, ..self },
            WindowKind::Game => Desktop { game_offset: o, ..self },
            WindowKind::About => Desktop { about_offset: o, ..self },
            WindowKind::StartMenu => self,
        }
    }

    /// How far a moved window is pushed back: to 8 pixels from the left
    /// edge, else from the right edge; to 8 pixels from the top, else to
    /// keep its title bar above the taskbar.
    pub open spec fn correction(self, r: Rect) -> (int, int) {
        let right = r.x + r.width;
        let limit_y = self.height - 52 - 38;
        (
            if r.x < 8 { 8 - r.x } else if right > self.width - 8 { self.width - 8 - right } else { 0 },
            if r.y < 8 { 8 - r.y } else if r.y > limit_y { limit_y - r.y } else { 0 },
        )
    }

    /// Window `kind` moved by `(dx, dy)`, then pushed back on screen.
    #[verifier::opaque]
    pub open spec fn spec_move_by(self, kind: WindowKind, dx: int, dy: int) -> Desktop {
        if kind == WindowKind::StartMenu {
            self
        } else {
            let o = self.offset_of(kind);
            let moved = self.with_offset(kind, Point { x: (o.x + dx) as i32, y: (o.y + dy) as i32 });
            let (cx, cy) = moved.correction(moved.spec_window(kind));
            moved.with_offset(kind, Point { x: (o.x + dx + cx) as i32, y: (o.y + dy + cy) as i32 })
        }
    }

    /// The pointer moved to `p`: a release ends any drag; with the button
    /// held, a press on the focused window's title bar starts one, and a
    /// drag moves its window by how far the pointer went.
    pub open spec fn spec_mouse_move(self, p: Point, left_down: bool) -> Desktop {
        if !left_down {
            Desktop { drag_window: None, ..self }
        } else {
            match self.drag_window {
                None => if self.spec_is_open(self.focus) && self.spec_titlebar(self.focus).spec_contains(p) {
                    Desktop { drag_window: Some(self.focus), drag_anchor: p, ..self }
                } else {
                    self
                },
                Some(kind) => {
                    let dx = p.x - self.drag_anchor.x;
                    let dy = p.y - self.drag_anchor.y;
                    if dx == 0 && dy == 0 {
                        self
                    } else {
                        Desktop { drag_anchor: p, ..self.spec_move_by(kind, dx, dy) }
                    }
                },
            }
        }
    }

    /// Escape: closes the start menu if it is open, else the focused
    /// window.
    pub open spec fn spec_dismiss(self) -> Desktop {
        if self.start_open {
            Desktop { start_open: false, ..self }
        } else if self.spec_is_open(self.focus) {
            self.spec_close(self.focus)
        } else {
            self
        }
    }
}

/// A damaged rectangle: non-empty and on screen.
pub open spec fn on_screen(r: Rect, d: Desktop) -> bool {
    &&& r.width > 0 && r.height > 0
    &&& r.x >= 0 && r.y >= 0
    &&& r.x + r.width <= d.width && r.y + r.height <= d.height
}

pub open spec fn dirty_wf(dirty: Seq<Rect>, d: Desktop) -> bool {
    &&& dirty.len() <= DIRTY_CAP
    &&& forall|i: int| 0 <= i < dirty.len() ==> on_screen(#[trigger] dirty[i], d)
}

/// The bounding box of two rectangles.
pub open spec fn bounding(a: Rect, b: Rect) -> Rect {
    let (x, y, w, h) = a.spec_bounds(b);
    rect(x, y, w, h)
}

/// The clip of two rectangles.
pub open spec fn clip(a: Rect, b: Rect) -> Rect {
    let (x, y, w, h) = a.spec_intersect(b);
    rect(x, y, w, h)
}

/// The first damaged rectangle that overlaps `r`, from `i` on.
pub open spec fn first_overlap(dirty: Seq<Rect>, r: Rect, i: int) -> Option<int>
    decreases dirty.len() - i,
{
    if i < 0 || i >= dirty.len() {
        None
    } else if !clip(dirty[i], r).spec_is_empty() {
        Some(i)
    } else {
        first_overlap(dirty, r, i + 1)
    }
}

/// The damage list after `r` is reported: its on-screen part grows the
/// first rectangle it overlaps, else joins the list, else, with the list
/// full, merges into the first rectangle, which then stands alone.
pub open spec fn spec_invalidate(dirty: Seq<Rect>, d: Desktop, r: Rect) -> Seq<Rect> {
    let c = clip(r, d.screen());
    if c.spec_is_empty() {
        dirty
    } else {
        match first_overlap(dirty, c, 0) {
            Some(i) => dirty.update(i, bounding(dirty[i], c)),
            None => if dirty.len() < DIRTY_CAP {
                dirty.push(c)
            } else {
                seq![bounding(dirty[0], c)]
            },
        }
    }
}

/// The part of the screen that needs drawing again covers `p`.
pub open spec fn covered(dirty: Seq<Rect>, p: Point) -> bool {
    exists|i: int| 0 <= i < dirty.len() && (#[trigger] dirty[i]).spec_contains(p)
}

/// The window manager: the desktop, what needs drawing again, and when
/// the statistics and the game were last refreshed.
pub struct WindowManager {
    pub desk: Desktop,
    pub dirty: Vec<Rect>,
    pub last_stats_refresh: u64,
    pub last_game_refresh: u64,
    pub game_frame: u64,
}

/// Clipping an on-screen rectangle, or a window, against another stays
/// within 32 bits.
proof fn lemma_clip_fits(a: Rect, b: Rect)
    requires
        -400000000 <= a.x <= 400000000 && -400000000 <= a.y <= 400000000,
        -400000000 <= a.width <= 400000000 && -400000000 <= a.height <= 400000000,
        -400000000 <= b.x <= 400000000 && -400000000 <= b.y <= 400000000,
        -400000000 <= b.width <= 400000000 && -400000000 <= b.height <= 400000000,
    ensures
        a.intersect_fits(b),
        a.edges_fit() && b.edges_fit(),
{
}

impl WindowManager {
    pub open spec fn wf(&self) -> bool {
        self.desk.wf() && dirty_wf(self.dirty@, self.desk)
    }

    /// Reports `rect` as needing drawing again.
    pub fn invalidate(&mut self, rect: Rect)
        requires
            old(self).wf(),
            rect.intersect_fits(old(self).desk.screen()),
        ensures
            final(self).wf(),
            final(self).desk == old(self).desk,
            final(self).last_stats_refresh == old(self).last_stats_refresh,
            final(self).last_game_refresh == old(self).last_game_refresh,
            final(self).game_frame == old(self).game_frame,
            final(self).dirty@ == spec_invalidate(old(self).dirty@, old(self).desk, rect),
    {
        let screen = Rect::new(0, 0, self.desk.width, self.desk.height);
        let r = rect.intersect(screen);
        assert(r == clip(rect, self.desk.screen()));
        if r.is_empty() {
            return;
        }
        let mut index: usize = 0;
        while index < self.dirty.len()
            invariant
                self.wf(),
                self.desk == old(self).desk,
                self.dirty@ == old(self).dirty@,
                self.last_stats_refresh == old(self).last_stats_refresh,
                self.last_game_refresh == old(self).last_game_refresh,
                self.game_frame == old(self).game_frame,
                on_screen(r, self.desk),
                r == clip(rect, self.desk.screen()),
                index <= self.dirty@.len(),
                first_overlap(self.dirty@, r, 0) == first_overlap(self.dirty@, r, index as int),
            decreases self.dirty@.len() - index,
        {
            let current = self.dirty[index];
            proof {
                lemma_clip_fits(current, r);
            }
            let overlap = current.intersect(r);
            assert(overlap == clip(current, r));
            if !overlap.is_empty() {
                let merged = current.union(r);
                assert(merged == bounding(current, r));
                self.dirty.set(index, merged);
                return;
            }
            index += 1;
        }
        if self.dirty.len() < DIRTY_CAP {
            self.dirty.push(r);
        } else {
            let first = self.dirty[0];
            let merged = first.union(r);
            assert(merged == bounding(first, r));
            self.dirty.clear();
            self.dirty.push(merged);
            assert(self.dirty@ =~= seq![bounding(old(self).dirty@[0], r)]);
        }
    }
}

proof fn lemma_first_overlap_range(dirty: Seq<Rect>, r: Rect, i: int)
    requires
        0 <= i,
    ensures
        first_overlap(dirty, r, i) matches Some(k) ==> i <= k < dirty.len(),
    decreases dirty.len() - i,
{
    if i < dirty.len() && clip(dirty[i], r).spec_is_empty() {
        lemma_first_overlap_range(dirty, r, i + 1);
    }
}

/// The bounding box of two non-empty on-screen rectangles holds every
/// point of each.
proof fn lemma_bounding_holds(a: Rect, b: Rect, d: Desktop, p: Point)
    requires
        d.wf(),
        on_screen(a, d),
        on_screen(b, d),
        a.spec_contains(p) || b.spec_contains(p),
    ensures
        bounding(a, b).spec_contains(p),
        on_screen(bounding(a, b), d),
{
}

/// No damage reported is lost: every on-screen point of a reported
/// rectangle needs drawing again afterwards, and so does every point that
/// needed it before, unless the list was full and the report overlapped
/// none of it, when the list collapses to its first rectangle grown by the
/// report.
pub proof fn lemma_invalidate_covers(dirty: Seq<Rect>, d: Desktop, r: Rect, p: Point)
    requires
        d.wf(),
        dirty_wf(dirty, d),
        r.intersect_fits(d.screen()),
    ensures
        d.screen().spec_contains(p) && r.spec_contains(p) ==> covered(spec_invalidate(dirty, d, r), p),
        covered(dirty, p) && (dirty.len() < DIRTY_CAP || first_overlap(dirty, clip(r, d.screen()), 0) is Some
            || clip(r, d.screen()).spec_is_empty()) ==> covered(spec_invalidate(dirty, d, r), p),
{
    let c = clip(r, d.screen());
    let after = spec_invalidate(dirty, d, r);
    lemma_first_overlap_range(dirty, c, 0);
    if d.screen().spec_contains(p) && r.spec_contains(p) {
        assert(c.spec_contains(p));
        match first_overlap(dirty, c, 0) {
            Some(i) => {
                lemma_bounding_holds(dirty[i], c, d, p);
                assert(after[i].spec_contains(p));
            },
            None => {
                if dirty.len() < DIRTY_CAP {
                    assert(after[dirty.len() as int] == c);
                } else {
                    lemma_bounding_holds(dirty[0], c, d, p);
                    assert(after[0].spec_contains(p));
                }
            },
        }
    }
    if covered(dirty, p) && (dirty.len() < DIRTY_CAP || first_overlap(dirty, c, 0) is Some
        || c.spec_is_empty()) {
        let j = choose|j: int| 0 <= j < dirty.len() && (#[trigger] dirty[j]).spec_contains(p);
        if !c.spec_is_empty() {
            match first_overlap(dirty, c, 0) {
                Some(i) => {
                    if i == j {
                        lemma_bounding_holds(dirty[i], c, d, p);
                    }
                    assert(after[j].spec_contains(p));
                },
                None => {
                    assert(after[j] == dirty[j]);
                },
            }
        }
    }
}

pub fn order_kind(i: usize) -> (k: WindowKind)
    ensures
        k == window_order(i as int),
{
    if i == 0 {
        WindowKind::Terminal
    } else if i == 1 {
        WindowKind::Files
    } else if i == 2 {
        WindowKind::TaskManager
    } else if i == 3 {
        WindowKind::Game
    } else {
        WindowKind::About
    }
}

impl Desktop {
    /// The first open window of the focus order.
    pub fn first_open(&self) -> (r: Option<WindowKind>)
        ensures
            r == self.first_open_from(0),
    {
        let mut i: usize = 0;
        while i < 5
            invariant
                i <= 5,
                self.first_open_from(0) == self.first_open_from(i as int),
            decreases 5 - i,
        {
            let k = order_kind(i);
            if self.window_is_open(k) {
                return Some(k);
            }
            i += 1;
        }
        None
    }

    pub fn taskbar_button_at(&self, p: Point) -> (r: Option<WindowKind>)
        requires
            self.roomy(),
        ensures
            r == self.spec_taskbar_button_at(p),
    {
        let y = self.height - 44;
        if Rect::new(128, y, 94, 36).contains(p) {
            Some(WindowKind::Terminal)
        } else if Rect::new(230, y, 94, 36).contains(p) {
            Some(WindowKind::Files)
        } else if Rect::new(332, y, 94, 36).contains(p) {
            Some(WindowKind::TaskManager)
        } else if Rect::new(434, y, 94, 36).contains(p) {
            Some(WindowKind::Game)
        } else if Rect::new(536, y, 94, 36).contains(p) {
            Some(WindowKind::About)
        } else {
            None
        }
    }

    pub fn desktop_icon_at(&self, p: Point) -> (r: Option<WindowKind>)
        ensures
            r == self.spec_icon_at(p),
    {
        if Rect::new(20, 28, 100, 72).contains(p) {
            Some(WindowKind::Terminal)
        } else if Rect::new(20, 112, 100, 72).contains(p) {
            Some(WindowKind::Files)
        } else if Rect::new(20, 196, 100, 72).contains(p) {
            Some(WindowKind::TaskManager)
        } else if Rect::new(20, 280, 100, 72).contains(p) {
            Some(WindowKind::Game)
        } else if Rect::new(20, 364, 100, 72).contains(p) {
            Some(WindowKind::About)
        } else {
            None
        }
    }

    fn hit(&self, kind: WindowKind, p: Point) -> (r: bool)
        requires
            self.roomy(),
        ensures
            r == (kind != self.focus && self.spec_is_open(kind) && self.spec_window(kind).spec_contains(p)),
    {
        proof {
            lemma_window_bounds(*self, kind);
        }
        kind != self.focus && self.window_is_open(kind) && self.window_rect(kind).contains(p)
    }

    pub fn window_below(&self, p: Point) -> (r: Option<WindowKind>)
        requires
            self.roomy(),
        ensures
            r == self.spec_window_below(p),
    {
        if self.hit(WindowKind::About, p) {
            Some(WindowKind::About)
        } else if self.hit(WindowKind::Game, p) {
            Some(WindowKind::Game)
        } else if self.hit(WindowKind::TaskManager, p) {
            Some(WindowKind::TaskManager)
        } else if self.hit(WindowKind::Files, p) {
            Some(WindowKind::Files)
        } else if self.hit(WindowKind::Terminal, p) {
            Some(WindowKind::Terminal)
        } else {
            None
        }
    }
}

impl WindowManager {
    /// The refresh times and game frame are kept.
    pub open spec fn same_timers(&self, other: &WindowManager) -> bool {
        &&& self.last_stats_refresh == other.last_stats_refresh
        &&& self.last_game_refresh == other.last_game_refresh
        &&& self.game_frame == other.game_frame
    }

    /// A desktop of the given size with the terminal open and focused.
    pub fn new(width: i32, height: i32) -> (r: Self)
        requires
            0 <= width <= MAX_SCREEN_SIDE,
            0 <= height <= MAX_SCREEN_SIDE,
        ensures
            r.wf(),
            r.dirty@.len() == 0,
            r.desk.focus_ok(),
            r.desk == (Desktop {
                width,
                height,
                start_open: false,
                terminal_open: true,
                files_open: false,
                task_manager_open: false,
                about_open: false,
                game_open: false,
                focus: WindowKind::Terminal,
                files_len: 0,
                selected_file: 0,
                drag_window: None,
                drag_anchor: Point { x: 0, y: 0 },
                terminal_offset: Point { x: 0, y: 0 },
                files_offset: Point { x: 0, y: 0 },
                task_manager_offset: Point { x: 0, y: 0 },
                game_offset: Point { x: 0, y: 0 },
                about_offset: Point { x: 0, y: 0 },
            }),
            r.last_stats_refresh == 0 && r.last_game_refresh == 0 && r.game_frame == 0,
    {
        let origin = Point::new(0, 0);
        WindowManager {
            desk: Desktop {
                width,
                height,
                start_open: false,
                terminal_open: true,
                files_open: false,
                task_manager_open: false,
                about_open: false,
                game_open: false,
                focus: WindowKind::Terminal,
                files_len: 0,
                selected_file: 0,
                drag_window: None,
                drag_anchor: origin,
                terminal_offset: origin,
                files_offset: origin,
                task_manager_offset: origin,
                game_offset: origin,
                about_offset: origin,
            },
            dirty: Vec::new(),
            last_stats_refresh: 0,
            last_game_refresh: 0,
            game_frame: 0,
        }
    }

    fn invalidate_screen(&mut self)
        requires
            old(self).wf(),
        ensures
            final(self).wf(),
            final(self).desk == old(self).desk,
            final(self).same_timers(old(self)),
    {
        let screen = Rect::new(0, 0, self.desk.width, self.desk.height);
        proof {
            lemma_clip_fits(screen, self.desk.screen());
        }
        self.invalidate(screen);
    }

    fn invalidate_rect(&mut self, r: Rect)
        requires
            old(self).wf(),
            -400000000 <= r.x <= 400000000 && -400000000 <= r.y <= 400000000,
            -400000000 <= r.width <= 400000000 && -400000000 <= r.height <= 400000000,
        ensures
            final(self).wf(),
            final(self).desk == old(self).desk,
            final(self).same_timers(old(self)),
    {
        proof {
            lemma_clip_fits(r, self.desk.screen());
        }
        self.invalidate(r);
    }

    fn invalidate_window(&mut self, kind: WindowKind)
        requires
            old(self).wf(),
        ensures
            final(self).wf(),
            final(self).desk == old(self).desk,
            final(self).same_timers(old(self)),
    {
        proof {
            lemma_window_bounds(self.desk, kind);
        }
        let r = self.desk.window_rect(kind);
        self.invalidate_rect(r);
    }

    pub fn open_terminal(&mut self)
        requires
            old(self).wf(),
        ensures
            final(self).wf(),
            final(self).desk == old(self).desk.spec_open(WindowKind::Terminal),
            final(self).same_timers(old(self)),
    {
        self.desk.terminal_open = true;
        self.desk.focus = WindowKind::Terminal;
        self.invalidate_screen();
    }

    pub fn open_files(&mut self)
        requires
            old(self).wf(),
        ensures
            final(self).wf(),
            final(self).desk == old(self).desk.spec_open(WindowKind::Files),
            final(self).same_timers(old(self)),
    {
        self.desk.files_open = true;
        self.desk.focus = WindowKind::Files;
        self.invalidate_screen();
    }

    pub fn open_task_manager(&mut self)
        requires
            old(self).wf(),
        ensures
            final(self).wf(),
            final(self).desk == old(self).desk.spec_open(WindowKind::TaskManager),
            final(self).same_timers(old(self)),
    {
        self.desk.task_manager_open = true;
        self.desk.focus = WindowKind::TaskManager;
        self.invalidate_screen();
    }

    pub fn open_game(&mut self)
        requires
            old(self).wf(),
        ensures
            final(self).wf(),
            final(self).desk == old(self).desk.spec_open(WindowKind::Game),
            final(self).same_timers(old(self)),
    {
        self.desk.game_open = true;
        self.desk.focus = WindowKind::Game;
        self.invalidate_screen();
    }

    pub fn open_about(&mut self)
        requires
            old(self).wf(),
        ensures
            final(self).wf(),
            final(self).desk == old(self).desk.spec_open(WindowKind::About),
            final(self).same_timers(old(self)),
    {
        self.desk.about_open = true;
        self.desk.focus = WindowKind::About;
        self.invalidate_screen();
    }

    fn open_kind(&mut self, kind: WindowKind)
        requires
            old(self).wf(),
        ensures
            final(self).wf(),
            final(self).desk == old(self).desk.spec_open(kind),
            final(self).same_timers(old(self)),
    {
        match kind {
            WindowKind::Terminal => self.open_terminal(),
            WindowKind::Files => self.open_files(),
            WindowKind::TaskManager => self.open_task_manager(),
            WindowKind::Game => self.open_game(),
            WindowKind::About => self.open_about(),
            WindowKind::StartMenu => {},
        }
    }

    /// Opens a window from the taskbar or the desktop.
    pub fn open_window(&mut self, kind: WindowKind)
        requires
            old(self).wf(),
        ensures
            final(self).wf(),
            final(self).desk == old(self).desk.spec_open_window(kind),
            final(self).same_timers(old(self)),
    {
        reveal(Desktop::spec_open_window);
        self.open_kind(kind);
        self.desk.start_open = false;
        self.invalidate_screen();
    }

    pub fn close_window(&mut self, kind: WindowKind)
        requires
            old(self).wf(),
        ensures
            final(self).wf(),
            final(self).desk == old(self).desk.spec_close(kind),
            final(self).same_timers(old(self)),
    {
        reveal(Desktop::spec_close);
        proof {
            lemma_window_bounds(self.desk, kind);
        }
        let old_rect = self.desk.window_rect(kind);
        match kind {
            WindowKind::Terminal => self.desk.terminal_open = false,
            WindowKind::Files => self.desk.files_open = false,
            WindowKind::TaskManager => self.desk.task_manager_open = false,
            WindowKind::Game => self.desk.game_open = false,
            WindowKind::About => self.desk.about_open = false,
            WindowKind::StartMenu => self.desk.start_open = false,
        }
        let first = self.desk.first_open();
        self.desk.drag_window = None;
        self.desk.focus = match first {
            Some(k) => k,
            None => WindowKind::Terminal,
        };
        self.invalidate_rect(old_rect);
        self.invalidate_screen();
    }

    /// Passes the focus to the next open window.
    pub fn cycle_focus(&mut self)
        requires
            old(self).wf(),
        ensures
            final(self).wf(),
            final(self).desk == old(self).desk.spec_cycle(),
            final(self).same_timers(old(self)),
    {
        let current: usize = match self.desk.focus {
            WindowKind::Terminal => 0,
            WindowKind::Files => 1,
            WindowKind::TaskManager => 2,
            WindowKind::Game => 3,
            WindowKind::About => 4,
            WindowKind::StartMenu => 0,
        };
        let mut step: usize = 1;
        while step <= 5
            invariant
                self.desk == old(self).desk,
                self.dirty@ == old(self).dirty@,
                self.same_timers(old(self)),
                self.wf(),
                1 <= step <= 6,
                current == order_position(self.desk.focus),
                old(self).desk.next_open(1) == old(self).desk.next_open(step as int),
            decreases 6 - step,
        {
            let candidate = order_kind((current + step) % 5);
            if self.desk.window_is_open(candidate) {
                self.desk.focus = candidate;
                self.invalidate_screen();
                return;
            }
            step += 1;
        }
    }

    /// Closes the start menu if it is open, else the focused window.
    pub fn dismiss_focused(&mut self)
        requires
            old(self).wf(),
        ensures
            final(self).wf(),
            final(self).desk == old(self).desk.spec_dismiss(),
            final(self).same_timers(old(self)),
    {
        if self.desk.start_open {
            let panel = self.desk.start_panel_rect();
            self.desk.start_open = false;
            self.invalidate_rect(panel);
            return;
        }
        if self.desk.window_is_open(self.desk.focus) {
            self.close_window(self.desk.focus);
        }
    }

    pub fn end_drag(&mut self)
        ensures
            final(self).desk == (Desktop { drag_window: None, ..old(self).desk }),
            final(self).dirty@ == old(self).dirty@,
            final(self).same_timers(old(self)),
    {
        self.desk.drag_window = None;
    }

    /// Typing goes to the shell: the terminal is open and focused, and the
    /// start menu is closed.
    pub fn shell_input_active(&self) -> (r: bool)
        ensures
            r == (self.desk.terminal_open && self.desk.focus == WindowKind::Terminal && !self.desk.start_open),
    {
        self.desk.terminal_open && self.desk.focus == WindowKind::Terminal && !self.desk.start_open
    }

    /// Redraws the task manager, if it is open.
    pub fn refresh_task_manager(&mut self)
        requires
            old(self).wf(),
        ensures
            final(self).wf(),
            final(self).desk == old(self).desk,
            final(self).same_timers(old(self)),
            !old(self).desk.task_manager_open ==> final(self).dirty@ == old(self).dirty@,
    {
        if self.desk.task_manager_open {
            self.invalidate_window(WindowKind::TaskManager);
        }
    }

    /// Redraws the statistics once enough ticks have passed since the last
    /// time.
    pub fn refresh_stats_if_due(&mut self, tick: u64)
        requires
            old(self).wf(),
        ensures
            final(self).wf(),
            final(self).desk == old(self).desk,
            final(self).last_game_refresh == old(self).last_game_refresh,
            final(self).game_frame == old(self).game_frame,
            final(self).last_stats_refresh == if tick >= old(self).last_stats_refresh && tick
                - old(self).last_stats_refresh >= STATS_REFRESH_TICKS {
                tick
            } else {
                old(self).last_stats_refresh
            },
    {
        let elapsed = if tick >= self.last_stats_refresh { tick - self.last_stats_refresh } else { 0 };
        if elapsed < STATS_REFRESH_TICKS {
            return;
        }
        self.last_stats_refresh = tick;
        let widget = self.desk.system_widget_rect();
        self.invalidate_rect(widget);
        let taskbar = self.desk.taskbar_rect();
        self.invalidate_rect(taskbar);
        if self.desk.task_manager_open {
            self.invalidate_window(WindowKind::TaskManager);
        }
    }

    /// Advances the game by a frame on each new tick while it is open.
    pub fn animate_if_due(&mut self, tick: u64)
        requires
            old(self).wf(),
        ensures
            final(self).wf(),
            final(self).desk == old(self).desk,
            final(self).last_stats_refresh == old(self).last_stats_refresh,
            !old(self).desk.game_open || tick == old(self).last_game_refresh ==> final(self).same_timers(old(self))
                && final(self).dirty@ == old(self).dirty@,
            old(self).desk.game_open && tick != old(self).last_game_refresh ==> final(self).last_game_refresh
                == tick && final(self).game_frame == (if old(self).game_frame == u64::MAX {
                0
            } else {
                old(self).game_frame + 1
            }),
    {
        if !self.desk.game_open || tick == self.last_game_refresh {
            return;
        }
        self.last_game_refresh = tick;
        self.game_frame = self.game_frame.wrapping_add(1);
        self.invalidate_window(WindowKind::Game);
    }
}

impl Desktop {
    pub fn offset(&self, kind: WindowKind) -> (r: Point)
        ensures
            r == self.offset_of(kind),
    {
        match kind {
            WindowKind::Terminal => self.terminal_offset,
            WindowKind::Files => self.files_offset,
            WindowKind::TaskManager => self.task_manager_offset,
            WindowKind::Game => self.game_offset,
            WindowKind::About => self.about_offset,
            WindowKind::StartMenu => Point::new(0, 0),
        }
    }

    pub fn set_offset(&mut self, kind: WindowKind, o: Point)
        ensures
            *final(self) == old(self).with_offset(kind, o),
    {
        match kind {
            WindowKind::Terminal => self.terminal_offset = o,
            WindowKind::Files => self.files_offset = o,
            WindowKind::TaskManager => self.task_manager_offset = o,
            WindowKind::Game => self.game_offset = o,
            WindowKind::About => self.about_offset = o,
            WindowKind::StartMenu => {},
        }
    }
}

impl WindowManager {
    /// A click at `p` inside window `kind`.
    fn activate_window_at(&mut self, kind: WindowKind, p: Point)
        requires
            old(self).wf(),
        ensures
            final(self).wf(),
            final(self).desk == old(self).desk.spec_activate(kind, p),
            final(self).same_timers(old(self)),
    {
        reveal(Desktop::spec_activate);
        proof {
            lemma_window_bounds(self.desk, kind);
            lemma_window_bounds(self.desk, WindowKind::Files);
        }
        if self.desk.close_button_rect(kind).contains(p) {
            self.close_window(kind);
            return;
        }
        let ghost d0 = self.desk;
        let body = self.desk.files_body_rect();
        let titlebar = self.desk.titlebar_rect(kind);
        self.desk.focus = kind;
        if kind == WindowKind::Files {
            if body.contains(p) && p.y >= body.y + 70 {
                let index = ((p.y - (body.y + 70)) / 34) as usize;
                if index < self.desk.files_len {
                    self.desk.selected_file = index;
                    self.invalidate_window(WindowKind::Files);
                }
            }
        }
        if titlebar.contains(p) {
            self.desk.drag_window = Some(kind);
            self.desk.drag_anchor = p;
        }
        self.invalidate_screen();
    }

    /// A press of the left button at `p`.
    #[verifier::spinoff_prover]
    #[verifier::rlimit(50)]
    pub fn handle_mouse_down(&mut self, p: Point)
        requires
            old(self).wf(),
        ensures
            final(self).wf(),
            final(self).desk == old(self).desk.spec_mouse_down(p),
            final(self).same_timers(old(self)),
    {
        if self.desk.start_button_rect().contains(p) {
            let panel = self.desk.start_panel_rect();
            self.desk.start_open = !self.desk.start_open;
            self.desk.drag_window = None;
            self.invalidate_rect(panel);
            let taskbar = self.desk.taskbar_rect();
            self.invalidate_rect(taskbar);
            return;
        }
        if let Some(kind) = self.desk.taskbar_button_at(p) {
            self.open_window(kind);
            return;
        }
        let panel = self.desk.start_panel_rect();
        if self.desk.start_open && panel.contains(p) {
            let diff = p.y - (panel.y + 72);
            let row: i32 = if diff >= 0 { diff / 46 } else { -((-diff) / 46) };
            assert(row == trunc_div(diff as int, 46));
            if row == 0 {
                self.open_terminal();
            } else if row == 1 {
                self.open_files();
            } else if row == 2 {
                self.open_task_manager();
            } else if row == 3 {
                self.open_game();
            } else if row == 4 {
                self.open_about();
            }
            self.desk.start_open = false;
            self.invalidate_rect(panel);
            return;
        }
        let focus = self.desk.focus;
        proof {
            lemma_window_bounds(self.desk, focus);
        }
        if self.desk.window_is_open(focus) && self.desk.window_rect(focus).contains(p) {
            self.activate_window_at(focus, p);
            return;
        }
        if let Some(kind) = self.desk.window_below(p) {
            self.activate_window_at(kind, p);
            return;
        }
        if let Some(kind) = self.desk.desktop_icon_at(p) {
            self.open_window(kind);
            return;
        }
        if self.desk.start_open {
            self.desk.start_open = false;
            self.invalidate_rect(panel);
        }
        self.desk.drag_window = None;
    }
}

/// A window pushed back on screen lies within the offset limit of where
/// it starts.
proof fn lemma_corrected_offset(d: Desktop, kind: WindowKind, cx: int, cy: int)
    requires
        d.roomy(),
        kind != WindowKind::StartMenu,
        (cx, cy) == d.correction(d.spec_window(kind)),
    ensures
        small_point(
            Point { x: (d.offset_of(kind).x + cx) as i32, y: (d.offset_of(kind).y + cy) as i32 },
            OFFSET_LIMIT as int,
        ),
{
    lemma_window_bounds(d, kind);
    let r = d.spec_window(kind);
    let o = d.offset_of(kind);
    match kind {
        WindowKind::Terminal => {
            assert(r.x == 152 + o.x && r.y == 72 + o.y);
        },
        WindowKind::Files => {
            assert(r.x == 206 + o.x && r.y == 112 + o.y);
        },
        WindowKind::TaskManager => {
            assert(r.x == d.width - 402 + o.x && r.y == 72 + o.y);
        },
        WindowKind::Game => {
            assert(r.x == 246 + o.x && 130 + o.y <= r.y <= 460 + o.y);
        },
        WindowKind::About => {
            assert(r.x == d.width - 506 + o.x && r.y == d.height - 350 + o.y);
        },
        WindowKind::StartMenu => {},
    }
}

impl WindowManager {
    /// Moves window `kind` by `(dx, dy)` and pushes it back on screen.
    #[verifier::spinoff_prover]
    #[verifier::rlimit(100)]
    fn move_window_by(&mut self, kind: WindowKind, dx: i32, dy: i32)
        requires
            old(self).wf(),
            -2 * POINT_LIMIT <= dx <= 2 * POINT_LIMIT,
            -2 * POINT_LIMIT <= dy <= 2 * POINT_LIMIT,
        ensures
            final(self).wf(),
            final(self).desk == old(self).desk.spec_move_by(kind, dx as int, dy as int),
            final(self).dirty@ == old(self).dirty@,
            final(self).same_timers(old(self)),
    {
        reveal(Desktop::spec_move_by);
        if kind == WindowKind::StartMenu {
            return;
        }
        let ghost d0 = self.desk;
        let o = self.desk.offset(kind);
        let moved = Point::new(o.x + dx, o.y + dy);
        self.desk.set_offset(kind, moved);
        let ghost d1 = self.desk;
        assert(d1.roomy());
        proof {
            lemma_window_bounds(d1, kind);
        }
        let r = self.desk.window_rect(kind);
        let right = r.x + r.width;
        let limit_y = self.desk.height - 52 - 38;
        let cx = if r.x < 8 {
            8 - r.x
        } else if right > self.desk.width - 8 {
            self.desk.width - 8 - right
        } else {
            0
        };
        let cy = if r.y < 8 {
            8 - r.y
        } else if r.y > limit_y {
            limit_y - r.y
        } else {
            0
        };
        assert(d1.correction(d1.spec_window(kind)) == (cx as int, cy as int));
        let fixed = Point::new(moved.x + cx, moved.y + cy);
        self.desk.set_offset(kind, fixed);
        proof {
            lemma_corrected_offset(d1, kind, cx as int, cy as int);
        }
    }

    /// The pointer moved to `p`, with the left button held or not.
    pub fn handle_mouse_move(&mut self, p: Point, left_down: bool)
        requires
            old(self).wf(),
            small_point(p, POINT_LIMIT as int),
            small_point(old(self).desk.drag_anchor, POINT_LIMIT as int),
        ensures
            final(self).wf(),
            final(self).desk == old(self).desk.spec_mouse_move(p, left_down),
            final(self).same_timers(old(self)),
    {
        if !left_down {
            self.desk.drag_window = None;
            return;
        }
        match self.desk.drag_window {
            None => {
                let focus = self.desk.focus;
                if self.desk.window_is_open(focus) && self.desk.titlebar_rect(focus).contains(p) {
                    self.desk.drag_window = Some(focus);
                    self.desk.drag_anchor = p;
                }
            },
            Some(kind) => {
                let dx = p.x - self.desk.drag_anchor.x;
                let dy = p.y - self.desk.drag_anchor.y;
                if dx == 0 && dy == 0 {
                    return;
                }
                proof {
                    lemma_window_bounds(self.desk, kind);
                }
                let old_rect = self.desk.window_rect(kind);
                self.move_window_by(kind, dx, dy);
                self.desk.drag_anchor = p;
                self.invalidate_rect(old_rect);
                self.invalidate_window(kind);
            },
        }
    }
}

proof fn lemma_first_open(d: Desktop, i: int)
    requires
        0 <= i <= 5,
    ensures
        d.first_open_from(i) matches Some(k) ==> d.spec_is_open(k) && k != WindowKind::StartMenu,
        d.first_open_from(i) is None ==> forall|j: int| i <= j < 5 ==> !d.spec_is_open(#[trigger] window_order(j)),
    decreases 5 - i,
{
    if i < 5 {
        lemma_first_open(d, i + 1);
    }
}

proof fn lemma_next_open(d: Desktop, step: int)
    requires
        1 <= step <= 6,
    ensures
        d.next_open(step) matches Some(k) ==> d.spec_is_open(k) && k != WindowKind::StartMenu,
    decreases 6 - step,
{
    if step <= 5 {
        lemma_next_open(d, step + 1);
    }
}

proof fn lemma_close_focus(d: Desktop, kind: WindowKind)
    ensures
        d.spec_close(kind).focus_ok(),
{
    reveal(Desktop::spec_close);
    let closed = match kind {
        WindowKind::Terminal => Desktop { terminal_open: false, ..d },
        WindowKind::Files => Desktop { files_open: false, ..d },
        WindowKind::TaskManager => Desktop { task_manager_open: false, ..d },
        WindowKind::Game => Desktop { game_open: false, ..d },
        WindowKind::About => Desktop { about_open: false, ..d },
        WindowKind::StartMenu => Desktop { start_open: false, ..d },
    };
    lemma_first_open(closed, 0);
    if closed.first_open_from(0) is None {
        assert(!closed.spec_is_open(window_order(0)));
        assert(!closed.spec_is_open(window_order(1)));
        assert(!closed.spec_is_open(window_order(2)));
        assert(!closed.spec_is_open(window_order(3)));
        assert(!closed.spec_is_open(window_order(4)));
    }
}

proof fn lemma_activate_focus(d: Desktop, kind: WindowKind, p: Point)
    requires
        d.spec_is_open(kind),
        kind != WindowKind::StartMenu,
    ensures
        d.spec_activate(kind, p).focus_ok(),
{
    reveal(Desktop::spec_activate);
    lemma_close_focus(d, kind);
}

/// The focus is always an open window, or the terminal when every window
/// is closed: whatever opens, closes, cycles, clicks, drags or dismisses.
pub proof fn lemma_focus_kept(d: Desktop, kind: WindowKind, p: Point, left_down: bool)
    requires
        d.focus_ok(),
    ensures
        kind != WindowKind::StartMenu ==> d.spec_open(kind).focus_ok(),
        d.spec_open_window(kind).focus_ok(),
        d.spec_close(kind).focus_ok(),
        d.spec_cycle().focus_ok(),
        d.spec_dismiss().focus_ok(),
        d.spec_mouse_down(p).focus_ok(),
        d.spec_mouse_move(p, left_down).focus_ok(),
{
    reveal(Desktop::spec_open_window);
    lemma_close_focus(d, kind);
    lemma_close_focus(d, d.focus);
    lemma_next_open(d, 1);
    // A click.
    if d.spec_start_button().spec_contains(p) {
    } else if d.spec_taskbar_button_at(p) is Some {
    } else if d.start_open && d.spec_start_panel().spec_contains(p) {
    } else if d.spec_is_open(d.focus) && d.spec_window(d.focus).spec_contains(p) {
        lemma_activate_focus(d, d.focus, p);
    } else if d.spec_window_below(p) is Some {
        lemma_activate_focus(d, d.spec_window_below(p)->0, p);
    }
    // A drag moves a window and touches nothing else.
    reveal(Desktop::spec_move_by);
}

/// Bytes the shell's input line holds at most.
pub const INPUT_CAP: usize = 128;

/// The display manager: the windows, the terminal's scrollback and input
/// line, the taskbar's status and clock, the pointer, and the figures the
/// system widget shows.
pub struct DisplayManager {
    pub windows: WindowManager,
    pub shell: ShellBuffer,
    pub input: FixedText,
    pub status: FixedText,
    pub clock: FixedText,
    pub cursor: Point,
    pub previous_cursor: Point,
    pub cursor_dirty: bool,
    pub boot_abi: u32,
    pub memory_bytes: u64,
    pub initrd_files: usize,
    pub vfs_files: usize,
    pub event_depth: usize,
    pub uptime_ticks: u64,
}

/// The scrollback after `line` is added: a full one drops its oldest line.
pub open spec fn with_line(lines: Seq<ShellLine>, line: ShellLine) -> Seq<ShellLine> {
    if lines.len() < MAX_SCROLLBACK_LINES { lines.push(line) } else { lines.drop_first().push(line) }
}

/// `text` as a stored line.
pub open spec fn as_line(text: Seq<u8>) -> Seq<u8> {
    append_capped(Seq::empty(), stored(text))
}

impl DisplayManager {
    pub open spec fn wf(&self) -> bool {
        &&& self.windows.wf()
        &&& self.shell.wf()
        &&& self.input.wf()
        &&& self.status.wf()
        &&& self.clock.wf()
    }

    /// Everything but the scrollback, the input line and the damage is as
    /// in `other`.
    pub open spec fn same_figures(&self, other: &DisplayManager) -> bool {
        &&& self.windows.desk == other.windows.desk
        &&& self.windows.same_timers(&other.windows)
        &&& self.status == other.status
        &&& self.clock == other.clock
        &&& self.cursor == other.cursor && self.previous_cursor == other.previous_cursor
        &&& self.cursor_dirty == other.cursor_dirty
        &&& self.boot_abi == other.boot_abi && self.memory_bytes == other.memory_bytes
        &&& self.initrd_files == other.initrd_files && self.vfs_files == other.vfs_files
        &&& self.event_depth == other.event_depth && self.uptime_ticks == other.uptime_ticks
    }

    /// A desktop of the given size with the terminal open, greeting the
    /// user.
    pub fn new(width: i32, height: i32, boot_abi: u32, memory_bytes: u64, initrd_files: usize) -> (r: Self)
        requires
            0 <= width <= MAX_SCREEN_SIDE,
            0 <= height <= MAX_SCREEN_SIDE,
        ensures
            r.wf(),
            r.windows.desk.focus_ok(),
            r.windows.desk.terminal_open && r.windows.desk.focus == WindowKind::Terminal,
            r.windows.desk.width == width && r.windows.desk.height == height,
            r.shell@.len() == 2,
            r.shell@[0].kind == LineKind::Status,
            r.shell@[0].text@ == as_line("Display manager online".spec_bytes()),
            r.shell@[1].kind == LineKind::Output,
            r.shell@[1].text@ == as_line("Type help to explore GenOS.".spec_bytes()),
            r.input@.len() == 0,
            r.status@ == as_line("ready".spec_bytes()),
            r.clock@ == as_line("--:--:--".spec_bytes()),
            r.cursor == (Point { x: 0, y: 0 }) && r.previous_cursor == r.cursor && r.cursor_dirty,
            r.boot_abi == boot_abi && r.memory_bytes == memory_bytes,
            r.initrd_files == initrd_files && r.vfs_files == initrd_files,
            r.event_depth == 0 && r.uptime_ticks == 0,
    {
        let origin = Point::new(0, 0);
        let mut manager = DisplayManager {
            windows: WindowManager::new(width, height),
            shell: ShellBuffer::new(),
            input: FixedText::empty(),
            status: FixedText::from_str("ready"),
            clock: FixedText::from_str("--:--:--"),
            cursor: origin,
            previous_cursor: origin,
            cursor_dirty: true,
            boot_abi,
            memory_bytes,
            initrd_files,
            vfs_files: initrd_files,
            event_depth: 0,
            uptime_ticks: 0,
        };
        proof {
            lemma_focus_new(manager.windows.desk);
        }
        manager.push_line(LineKind::Status, "Display manager online");
        manager.push_line(LineKind::Output, "Type help to explore GenOS.");
        manager
    }

    fn invalidate_terminal(&mut self)
        requires
            old(self).wf(),
        ensures
            final(self).wf(),
            final(self).same_figures(old(self)),
            final(self).shell == old(self).shell && final(self).input == old(self).input,
    {
        self.windows.invalidate_window(WindowKind::Terminal);
    }

    fn invalidate_input(&mut self)
        requires
            old(self).wf(),
        ensures
            final(self).wf(),
            final(self).same_figures(old(self)),
            final(self).shell == old(self).shell && final(self).input == old(self).input,
    {
        proof {
            lemma_window_bounds(self.windows.desk, WindowKind::Terminal);
        }
        let r = self.windows.desk.input_rect();
        self.windows.invalidate_rect(r);
    }

    fn invalidate_taskbar(&mut self)
        requires
            old(self).wf(),
        ensures
            final(self).wf(),
            final(self).same_figures(old(self)),
            final(self).shell == old(self).shell && final(self).input == old(self).input,
    {
        let r = self.windows.desk.taskbar_rect();
        self.windows.invalidate_rect(r);
    }

    /// Adds a line to the terminal's scrollback.
    pub fn push_line(&mut self, kind: LineKind, text: &str)
        requires
            old(self).wf(),
        ensures
            final(self).wf(),
            final(self).same_figures(old(self)),
            final(self).input == old(self).input,
            final(self).shell@.len() > 0,
            final(self).shell@ == with_line(old(self).shell@, final(self).shell@.last()),
            final(self).shell@.last().kind == kind,
            final(self).shell@.last().text@ == as_line(text.spec_bytes()),
    {
        let line = ShellLine::new(kind, text);
        proof {
            self.shell.lemma_wf_len();
        }
        self.shell.push(line);
        self.invalidate_terminal();
    }

    /// Adds a line that is already laid out.
    pub fn push_fixed(&mut self, kind: LineKind, text: FixedText)
        requires
            old(self).wf(),
        ensures
            final(self).wf(),
            final(self).same_figures(old(self)),
            final(self).input == old(self).input,
            final(self).shell@ == with_line(old(self).shell@, ShellLine { kind, text }),
    {
        proof {
            self.shell.lemma_wf_len();
        }
        self.shell.push(ShellLine { kind, text });
        self.invalidate_terminal();
    }

    pub fn clear_shell(&mut self)
        requires
            old(self).wf(),
        ensures
            final(self).wf(),
            final(self).same_figures(old(self)),
            final(self).input == old(self).input,
            final(self).shell@.len() == 0,
    {
        self.shell.clear();
        self.invalidate_terminal();
    }

    /// Types a printable ASCII byte into the input line, unless it is full.
    pub fn input_push(&mut self, byte: u8) -> (r: bool)
        requires
            old(self).wf(),
        ensures
            final(self).wf(),
            final(self).same_figures(old(self)),
            final(self).shell == old(self).shell,
            r == (old(self).input@.len() < INPUT_CAP && 0x20 <= byte <= 0x7e),
            r ==> final(self).input@ == old(self).input@.push(byte),
            !r ==> final(self).input == old(self).input,
    {
        if self.input.len() >= INPUT_CAP || !(0x20 <= byte && byte <= 0x7e) {
            return false;
        }
        let buf = [byte];
        let ghost before = self.input@;
        self.input.push_bytes(buf.as_slice());
        proof {
            assert(stored(seq![byte]) =~= seq![byte]);
            assert(append_capped(before, seq![byte]) =~= before.push(byte));
        }
        self.invalidate_input();
        true
    }

    /// Deletes the last byte of the input line, unless it is empty.
    pub fn input_backspace(&mut self) -> (r: bool)
        requires
            old(self).wf(),
        ensures
            final(self).wf(),
            final(self).same_figures(old(self)),
            final(self).shell == old(self).shell,
            r == (old(self).input@.len() > 0),
            r ==> final(self).input@ == old(self).input@.drop_last(),
            !r ==> final(self).input == old(self).input,
    {
        if self.input.is_empty() {
            return false;
        }
        let text = self.input.as_str().as_bytes();
        let keep = text.len() - 1;
        let mut next = FixedText::empty();
        next.push_bytes(text.split_at(keep).0);
        proof {
            self.input.lemma_wf_ascii();
            let kept = self.input@.subrange(0, keep as int);
            assert(text@.subrange(0, keep as int) == kept);
            lemma_stored_ascii(self.input@, keep as int);
            assert(append_capped(Seq::empty(), kept) =~= kept);
            assert(kept =~= self.input@.drop_last());
        }
        self.input = next;
        self.invalidate_input();
        true
    }

    pub fn set_input(&mut self, text: FixedText)
        requires
            old(self).wf(),
            text.wf(),
        ensures
            final(self).wf(),
            final(self).same_figures(old(self)),
            final(self).shell == old(self).shell,
            final(self).input == text,
    {
        self.input = text;
        self.invalidate_input();
    }

    /// Hands over the input line and empties it.
    pub fn take_input(&mut self) -> (r: FixedText)
        requires
            old(self).wf(),
        ensures
            final(self).wf(),
            final(self).same_figures(old(self)),
            final(self).shell == old(self).shell,
            r == old(self).input,
            final(self).input@.len() == 0,
    {
        let current = self.input;
        self.input = FixedText::empty();
        self.invalidate_input();
        current
    }

    /// Typing goes to the shell.
    pub fn shell_input_active(&self) -> (r: bool)
        ensures
            r == (self.windows.desk.terminal_open && self.windows.desk.focus == WindowKind::Terminal
                && !self.windows.desk.start_open),
    {
        self.windows.shell_input_active()
    }

    pub fn set_status(&mut self, text: &str)
        requires
            old(self).wf(),
        ensures
            final(self).wf(),
            final(self).windows.desk == old(self).windows.desk,
            final(self).shell == old(self).shell && final(self).input == old(self).input,
            final(self).clock == old(self).clock,
            final(self).status@ == as_line(text.spec_bytes()),
    {
        self.status = FixedText::from_str(text);
        self.invalidate_taskbar();
    }

    /// Shows a new time on the taskbar; the same time changes nothing.
    pub fn set_clock(&mut self, text: FixedText)
        requires
            old(self).wf(),
            text.wf(),
        ensures
            final(self).wf(),
            final(self).windows.desk == old(self).windows.desk,
            final(self).shell == old(self).shell && final(self).input == old(self).input,
            final(self).status == old(self).status,
            final(self).clock@ == text@,
            old(self).clock@ == text@ ==> final(self).windows.dirty@ == old(self).windows.dirty@,
    {
        if same_text(self.clock.as_str().as_bytes(), text.as_str().as_bytes()) {
            return;
        }
        self.clock = text;
        self.invalidate_taskbar();
    }

    /// Takes the pointer position and the figures the system widget shows;
    /// a pointer that moved marks the cursor for drawing.
    pub fn sync_stats(&mut self, mouse: MouseState, event_depth: usize, vfs_files: usize, uptime_ticks: u64)
        ensures
            final(self).event_depth == event_depth,
            final(self).vfs_files == vfs_files,
            final(self).uptime_ticks == uptime_ticks,
            mouse.position != old(self).cursor ==> final(self).previous_cursor == old(self).cursor
                && final(self).cursor == mouse.position && final(self).cursor_dirty,
            mouse.position == old(self).cursor ==> final(self).previous_cursor == old(self).previous_cursor
                && final(self).cursor == old(self).cursor && final(self).cursor_dirty == old(self).cursor_dirty,
            final(self).windows == old(self).windows,
            final(self).shell == old(self).shell && final(self).input == old(self).input,
            final(self).status == old(self).status && final(self).clock == old(self).clock,
    {
        self.event_depth = event_depth;
        self.vfs_files = vfs_files;
        self.uptime_ticks = uptime_ticks;
        if mouse.position != self.cursor {
            self.previous_cursor = self.cursor;
            self.cursor = mouse.position;
            self.cursor_dirty = true;
        }
    }
}

/// Whether two byte strings are equal.
fn same_text(a: &[u8], b: &[u8]) -> (r: bool)
    ensures
        r == (a@ == b@),
{
    if a.len() != b.len() {
        return false;
    }
    let mut i: usize = 0;
    while i < a.len()
        invariant
            a@.len() == b@.len(),
            i <= a@.len(),
            forall|j: int| 0 <= j < i ==> a@[j] == b@[j],
        decreases a@.len() - i,
    {
        if a[i] != b[i] {
            return false;
        }
        i += 1;
    }
    assert(a@ =~= b@);
    true
}

/// A prefix of ASCII text is stored as it is.
proof fn lemma_stored_ascii(text: Seq<u8>, keep: int)
    requires
        0 <= keep <= text.len(),
        forall|i: int| 0 <= i < text.len() ==> #[trigger] text[i] < 128,
    ensures
        stored(text.subrange(0, keep)) == text.subrange(0, keep),
{
    assert(stored(text.subrange(0, keep)) =~= text.subrange(0, keep));
}

proof fn lemma_focus_new(d: Desktop)
    requires
        d.terminal_open,
        d.focus == WindowKind::Terminal,
    ensures
        d.focus_ok(),
{
}

} // verus!
