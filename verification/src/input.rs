//! PS/2 keyboard and mouse decoding and the bounded input-event queue.
use vstd::prelude::*;
use vstd::arithmetic::div_mod::{lemma_add_mod_noop_right, lemma_mod_add_multiples_vanish, lemma_small_mod};
use crate::abi::{
    UserInputEvent, USER_INPUT_KIND_KEY, USER_INPUT_KIND_POINTER_BUTTON,
    USER_INPUT_KIND_POINTER_MOVE, USER_INPUT_MASK_KEYBOARD, USER_INPUT_MASK_POINTER,
    USER_KEY_ARROW_DOWN, USER_KEY_ARROW_UP, USER_KEY_BACKSPACE, USER_KEY_CHAR, USER_KEY_ENTER,
    USER_KEY_ESCAPE, USER_KEY_TAB, USER_POINTER_BUTTON_LEFT, USER_POINTER_BUTTON_MIDDLE,
    USER_POINTER_BUTTON_RIGHT,
};
use crate::display::geometry::Point;

verus! {

pub const EVENT_QUEUE_CAP: usize = 64;

#[derive(Clone, Copy, Debug, PartialEq, Eq, Structural)]
pub enum KeyEvent {
    Char(u8),
    Enter,
    Backspace,
    Escape,
    Tab,
    ArrowUp,
    ArrowDown,
}

#[derive(Clone, Copy, Debug, PartialEq, Eq, Structural)]
pub struct MouseButtons {
    pub left: bool,
    pub right: bool,
    pub middle: bool,
}

impl MouseButtons {
    pub fn empty() -> (r: Self)
        ensures
            r == (MouseButtons { left: false, right: false, middle: false }),
    {
        Self { left: false, right: false, middle: false }
    }
}

#[derive(Clone, Copy, Debug, PartialEq, Eq, Structural)]
pub enum InputEvent {
    Key(KeyEvent),
    MouseMove { dx: i32, dy: i32, buttons: MouseButtons },
    MouseButton { position: Point, buttons: MouseButtons },
}

/// The user-space button mask of `buttons`.
pub open spec fn spec_button_mask(buttons: MouseButtons) -> u64 {
    (if buttons.left { USER_POINTER_BUTTON_LEFT } else { 0 }) | (if buttons.right {
        USER_POINTER_BUTTON_RIGHT
    } else {
        0
    }) | (if buttons.middle { USER_POINTER_BUTTON_MIDDLE } else { 0 })
}

/// The user-space key code and value of `key`.
pub open spec fn spec_key_code(key: KeyEvent) -> (u64, i64) {
    match key {
        KeyEvent::Char(byte) => (USER_KEY_CHAR, byte as i64),
        KeyEvent::Enter => (USER_KEY_ENTER, 0),
        KeyEvent::Backspace => (USER_KEY_BACKSPACE, 0),
        KeyEvent::Escape => (USER_KEY_ESCAPE, 0),
        KeyEvent::Tab => (USER_KEY_TAB, 0),
        KeyEvent::ArrowUp => (USER_KEY_ARROW_UP, 0),
        KeyEvent::ArrowDown => (USER_KEY_ARROW_DOWN, 0),
    }
}

/// The event as copied out to user space.
pub open spec fn spec_user_event(e: InputEvent) -> UserInputEvent {
    match e {
        InputEvent::Key(key) => UserInputEvent {
            kind: USER_INPUT_KIND_KEY,
            code: spec_key_code(key).0,
            value0: spec_key_code(key).1,
            value1: 0,
        },
        InputEvent::MouseMove { dx, dy, buttons } => UserInputEvent {
            kind: USER_INPUT_KIND_POINTER_MOVE,
            code: spec_button_mask(buttons),
            value0: dx as i64,
            value1: dy as i64,
        },
        InputEvent::MouseButton { position, buttons } => UserInputEvent {
            kind: USER_INPUT_KIND_POINTER_BUTTON,
            code: spec_button_mask(buttons),
            value0: position.x as i64,
            value1: position.y as i64,
        },
    }
}

impl InputEvent {
    /// Keyboard events match the keyboard mask; both pointer events the pointer mask.
    pub fn user_mask(self) -> (r: u64)
        ensures
            r == (if self is Key { USER_INPUT_MASK_KEYBOARD } else { USER_INPUT_MASK_POINTER }),
    {
        match self {
            Self::Key(_) => USER_INPUT_MASK_KEYBOARD,
            Self::MouseMove { .. } => USER_INPUT_MASK_POINTER,
            Self::MouseButton { .. } => USER_INPUT_MASK_POINTER,
        }
    }

    pub fn to_user_event(self) -> (r: UserInputEvent)
        ensures
            r == spec_user_event(self),
    {
        match self {
            Self::Key(key) => {
                let (code, value0): (u64, i64) = match key {
                    KeyEvent::Char(byte) => (USER_KEY_CHAR, byte as i64),
                    KeyEvent::Enter => (USER_KEY_ENTER, 0),
                    KeyEvent::Backspace => (USER_KEY_BACKSPACE, 0),
                    KeyEvent::Escape => (USER_KEY_ESCAPE, 0),
                    KeyEvent::Tab => (USER_KEY_TAB, 0),
                    KeyEvent::ArrowUp => (USER_KEY_ARROW_UP, 0),
                    KeyEvent::ArrowDown => (USER_KEY_ARROW_DOWN, 0),
                };
                UserInputEvent { kind: USER_INPUT_KIND_KEY, code, value0, value1: 0 }
            },
            Self::MouseMove { dx, dy, buttons } => UserInputEvent {
                kind: USER_INPUT_KIND_POINTER_MOVE,
                code: pointer_button_mask(buttons),
                value0: dx as i64,
                value1: dy as i64,
            },
            Self::MouseButton { position, buttons } => UserInputEvent {
                kind: USER_INPUT_KIND_POINTER_BUTTON,
                code: pointer_button_mask(buttons),
                value0: position.x as i64,
                value1: position.y as i64,
            },
        }
    }
}

fn pointer_button_mask(buttons: MouseButtons) -> (r: u64)
    ensures
        r == spec_button_mask(buttons),
{
    let (l, r, m) = (buttons.left, buttons.right, buttons.middle);
    let a: u64 = if l { USER_POINTER_BUTTON_LEFT } else { 0 };
    let b: u64 = if r { USER_POINTER_BUTTON_RIGHT } else { 0 };
    let c: u64 = if m { USER_POINTER_BUTTON_MIDDLE } else { 0 };
    a | b | c
}

#[derive(Clone, Copy, Debug, PartialEq, Eq, Structural)]
pub struct MouseState {
    pub position: Point,
    pub buttons: MouseButtons,
}

/// Pointer acceleration: faster motion moves further per count.
pub open spec fn spec_accelerate(v: i32) -> int {
    let m = if v < 0 { -v } else { v as int };
    v * (if m >= 18 {
        8int
    } else if m >= 8 {
        6int
    } else if m >= 3 {
        4int
    } else {
        3int
    })
}

pub open spec fn clamp(v: int, hi: int) -> int {
    let top = if hi > 0 { hi } else { 0 };
    if v < 0 {
        0
    } else if v > top {
        top
    } else {
        v
    }
}

/// Motion counts as wide as a PS/2 packet can report.
pub open spec fn small_motion(v: i32) -> bool {
    -0x1000_0000 <= v <= 0x0fff_ffff
}

fn accelerate_axis(value: i32) -> (r: i32)
    requires
        small_motion(value),
    ensures
        r == spec_accelerate(value),
{
    let magnitude = if value < 0 { -value } else { value };
    let multiplier = if magnitude >= 18 {
        8
    } else if magnitude >= 8 {
        6
    } else if magnitude >= 3 {
        4
    } else {
        3
    };
    assert(-0x8000_0000 <= value * multiplier <= 0x7fff_ffff) by (nonlinear_arith)
        requires
            -0x1000_0000 <= value <= 0x0fff_ffff,
            3 <= multiplier <= 8,
    ;
    value * multiplier
}

impl MouseState {
    pub fn new(position: Point) -> (r: Self)
        ensures
            r == (MouseState {
                position,
                buttons: MouseButtons { left: false, right: false, middle: false },
            }),
    {
        Self { position, buttons: MouseButtons::empty() }
    }

    /// Moves by the accelerated motion, clamped to `[0, max]`; screen y grows
    /// downward while mouse y grows upward.
    pub fn apply_move(&mut self, dx: i32, dy: i32, max_x: i32, max_y: i32, buttons: MouseButtons)
        requires
            small_motion(dx),
            small_motion(dy),
            i32::MIN <= old(self).position.x + spec_accelerate(dx) <= i32::MAX,
            i32::MIN <= old(self).position.y - spec_accelerate(dy) <= i32::MAX,
        ensures
            final(self).position.x == clamp(old(self).position.x + spec_accelerate(dx), max_x as int),
            final(self).position.y == clamp(old(self).position.y - spec_accelerate(dy), max_y as int),
            final(self).buttons == buttons,
    {
        let dx = accelerate_axis(dx);
        let dy = accelerate_axis(dy);
        let top_x = if max_x > 0 { max_x } else { 0 };
        let top_y = if max_y > 0 { max_y } else { 0 };
        let x = self.position.x as i64 + dx as i64;
        let y = self.position.y as i64 - dy as i64;
        self.position.x = if x < 0 { 0 } else if x > top_x as i64 { top_x } else { x as i32 };
        self.position.y = if y < 0 { 0 } else if y > top_y as i64 { top_y } else { y as i32 };
        self.buttons = buttons;
    }
}

/// A ring of at most `EVENT_QUEUE_CAP` events; when full, a new event
/// replaces the oldest and the drop is counted.
#[derive(Clone, Copy)]
pub struct EventQueue {
    events: [Option<InputEvent>; 64],
    head: usize,
    tail: usize,
    len: usize,
    dropped: u64,
}

impl EventQueue {
    pub closed spec fn view(&self) -> Seq<InputEvent> {
        Seq::new(self.len as nat, |i: int| self.events@[(self.head + i) % 64]->0)
    }

    pub closed spec fn spec_dropped(&self) -> u64 {
        self.dropped
    }

    pub closed spec fn wf(&self) -> bool {
        &&& self.len <= EVENT_QUEUE_CAP
        &&& self.head < EVENT_QUEUE_CAP
        &&& self.tail == (self.head + self.len) % 64
        &&& forall|i: int| 0 <= i < self.len ==> (#[trigger] self.events@[(self.head + i) % 64]) is Some
    }

    pub fn new() -> (r: Self)
        ensures
            r.wf(),
            r@ == Seq::<InputEvent>::empty(),
            r.spec_dropped() == 0,
    {
        let r = Self { events: [None; 64], head: 0, tail: 0, len: 0, dropped: 0 };
        assert(r@ =~= Seq::<InputEvent>::empty());
        r
    }

    #[verifier::spinoff_prover]
    #[verifier::rlimit(100)]
    pub fn push(&mut self, event: InputEvent)
        requires
            old(self).wf(),
            old(self).spec_dropped() < u64::MAX,
        ensures
            final(self).wf(),
            old(self)@.len() < EVENT_QUEUE_CAP ==> final(self)@ == old(self)@.push(event)
                && final(self).spec_dropped() == old(self).spec_dropped(),
            old(self)@.len() == EVENT_QUEUE_CAP ==> final(self)@ == old(self)@.drop_first().push(event)
                && final(self).spec_dropped() == old(self).spec_dropped() + 1,
    {
        if self.len == EVENT_QUEUE_CAP {
            proof {
                lemma_mod_add_multiples_vanish(self.head as int, 64);
                lemma_small_mod(self.head as nat, 64);
                assert(self.tail == self.head);
            }
            self.dropped += 1;
            self.events[self.tail] = Some(event);
            self.tail = (self.tail + 1) % EVENT_QUEUE_CAP;
            self.head = self.tail;
            assert forall|i: int| 0 <= i < self.len implies (#[trigger] self.events@[(self.head + i) % 64]) is Some by {
                let j = (old(self).head + i + 1) % 64;
                lemma_add_mod_noop_right(i, old(self).head + 1, 64);
                assert((self.head + i) % 64 == j);
                if i + 1 < 64 {
                    assert(old(self).events@[(old(self).head + (i + 1)) % 64] is Some);
                }
            }
            assert(self@ =~= old(self)@.drop_first().push(event)) by {
                assert forall|i: int| 0 <= i < 64 implies #[trigger] self@[i] == old(self)@.drop_first().push(event)[i] by {
                    lemma_add_mod_noop_right(i, old(self).head + 1, 64);
                    assert((self.head + i) % 64 == (old(self).head + i + 1) % 64);
                }
            }
        } else {
            self.events[self.tail] = Some(event);
            self.tail = (self.tail + 1) % EVENT_QUEUE_CAP;
            self.len += 1;
            assert(self@ =~= old(self)@.push(event));
        }
    }

    pub fn pop(&mut self) -> (r: Option<InputEvent>)
        requires
            old(self).wf(),
        ensures
            final(self).wf(),
            final(self).spec_dropped() == old(self).spec_dropped(),
            old(self)@.len() == 0 ==> r is None && final(self)@ == old(self)@,
            old(self)@.len() > 0 ==> r == Some(old(self)@[0]) && final(self)@ == old(self)@.drop_first(),
    {
        if self.len == 0 {
            return None;
        }
        let event = self.events[self.head];
        assert(self.events@[(self.head + 0) % 64] is Some);
        self.events[self.head] = None;
        self.head = (self.head + 1) % EVENT_QUEUE_CAP;
        self.len -= 1;
        assert forall|i: int| 0 <= i < self.len implies (#[trigger] self.events@[(self.head + i) % 64]) is Some by {
            assert((self.head + i) % 64 == (old(self).head + (i + 1)) % 64);
            assert(old(self).events@[(old(self).head + (i + 1)) % 64] is Some);
        }
        assert(self@ =~= old(self)@.drop_first()) by {
            assert forall|i: int| 0 <= i < self.len implies #[trigger] self@[i] == old(self)@.drop_first()[i] by {
                assert((self.head + i) % 64 == (old(self).head + (i + 1)) % 64);
            }
        }
        event
    }

    pub fn len(&self) -> (n: usize)
        requires
            self.wf(),
        ensures
            n == self@.len(),
    {
        self.len
    }

    pub fn is_empty(&self) -> (r: bool)
        requires
            self.wf(),
        ensures
            r == (self@.len() == 0),
    {
        self.len == 0
    }

    pub fn dropped(&self) -> (r: u64)
        ensures
            r == self.spec_dropped(),
    {
        self.dropped
    }
}

/// Events pushed into a queue with room come out in order.
pub proof fn lemma_queue_is_fifo(q: Seq<InputEvent>, e: InputEvent)
    requires
        q.len() < EVENT_QUEUE_CAP,
    ensures
        q.push(e).len() <= EVENT_QUEUE_CAP,
        q.len() == 0 ==> q.push(e)[0] == e,
        q.len() > 0 ==> q.push(e)[0] == q[0] && q.push(e).drop_first() == q.drop_first().push(e),
{
    if q.len() > 0 {
        assert(q.push(e).drop_first() =~= q.drop_first().push(e));
    }
}

#[derive(Clone, Copy, Debug, PartialEq, Eq, Structural)]
pub struct KeyboardDecoder {
    pub shift_left: bool,
    pub shift_right: bool,
    pub caps_lock: bool,
    pub extended: bool,
}

/// The key of a set-1 make code before letter case is applied.
pub open spec fn base_key(code: u8, shift: bool) -> Option<KeyEvent> {
    if code == 0x01 {
        Some(KeyEvent::Escape)
    } else if code == 0x0f {
        Some(KeyEvent::Tab)
    } else if code == 0x0e {
        Some(KeyEvent::Backspace)
    } else if code == 0x1c {
        Some(KeyEvent::Enter)
    } else if code == 0x02 {
        Some(KeyEvent::Char(if shift { 33u8 } else { 49u8 }))
    } else if code == 0x03 {
        Some(KeyEvent::Char(if shift { 64u8 } else { 50u8 }))
    } else if code == 0x04 {
        Some(KeyEvent::Char(if shift { 35u8 } else { 51u8 }))
    } else if code == 0x05 {
        Some(KeyEvent::Char(if shift { 36u8 } else { 52u8 }))
    } else if code == 0x06 {
        Some(KeyEvent::Char(if shift { 37u8 } else { 53u8 }))
    } else if code == 0x07 {
        Some(KeyEvent::Char(if shift { 94u8 } else { 54u8 }))
    } else if code == 0x08 {
        Some(KeyEvent::Char(if shift { 38u8 } else { 55u8 }))
    } else if code == 0x09 {
        Some(KeyEvent::Char(if shift { 42u8 } else { 56u8 }))
    } else if code == 0x0a {
        Some(KeyEvent::Char(if shift { 40u8 } else { 57u8 }))
    } else if code == 0x0b {
        Some(KeyEvent::Char(if shift { 41u8 } else { 48u8 }))
    } else if code == 0x0c {
        Some(KeyEvent::Char(if shift { 95u8 } else { 45u8 }))
    } else if code == 0x0d {
        Some(KeyEvent::Char(if shift { 43u8 } else { 61u8 }))
    } else if code == 0x10 {
        Some(KeyEvent::Char(113u8))
    } else if code == 0x11 {
        Some(KeyEvent::Char(119u8))
    } else if code == 0x12 {
        Some(KeyEvent::Char(101u8))
    } else if code == 0x13 {
        Some(KeyEvent::Char(114u8))
    } else if code == 0x14 {
        Some(KeyEvent::Char(116u8))
    } else if code == 0x15 {
        Some(KeyEvent::Char(121u8))
    } else if code == 0x16 {
        Some(KeyEvent::Char(117u8))
    } else if code == 0x17 {
        Some(KeyEvent::Char(105u8))
    } else if code == 0x18 {
        Some(KeyEvent::Char(111u8))
    } else if code == 0x19 {
        Some(KeyEvent::Char(112u8))
    } else if code == 0x1a {
        Some(KeyEvent::Char(if shift { 123u8 } else { 91u8 }))
    } else if code == 0x1b {
        Some(KeyEvent::Char(if shift { 125u8 } else { 93u8 }))
    } else if code == 0x1e {
        Some(KeyEvent::Char(97u8))
    } else if code == 0x1f {
        Some(KeyEvent::Char(115u8))
    } else if code == 0x20 {
        Some(KeyEvent::Char(100u8))
    } else if code == 0x21 {
        Some(KeyEvent::Char(102u8))
    } else if code == 0x22 {
        Some(KeyEvent::Char(103u8))
    } else if code == 0x23 {
        Some(KeyEvent::Char(104u8))
    } else if code == 0x24 {
        Some(KeyEvent::Char(106u8))
    } else if code == 0x25 {
        Some(KeyEvent::Char(107u8))
    } else if code == 0x26 {
        Some(KeyEvent::Char(108u8))
    } else if code == 0x27 {
        Some(KeyEvent::Char(if shift { 58u8 } else { 59u8 }))
    } else if code == 0x28 {
        Some(KeyEvent::Char(if shift { 34u8 } else { 39u8 }))
    } else if code == 0x29 {
        Some(KeyEvent::Char(if shift { 126u8 } else { 96u8 }))
    } else if code == 0x2b {
        Some(KeyEvent::Char(if shift { 124u8 } else { 92u8 }))
    } else if code == 0x2c {
        Some(KeyEvent::Char(122u8))
    } else if code == 0x2d {
        Some(KeyEvent::Char(120u8))
    } else if code == 0x2e {
        Some(KeyEvent::Char(99u8))
    } else if code == 0x2f {
        Some(KeyEvent::Char(118u8))
    } else if code == 0x30 {
        Some(KeyEvent::Char(98u8))
    } else if code == 0x31 {
        Some(KeyEvent::Char(110u8))
    } else if code == 0x32 {
        Some(KeyEvent::Char(109u8))
    } else if code == 0x33 {
        Some(KeyEvent::Char(if shift { 60u8 } else { 44u8 }))
    } else if code == 0x34 {
        Some(KeyEvent::Char(if shift { 62u8 } else { 46u8 }))
    } else if code == 0x35 {
        Some(KeyEvent::Char(if shift { 63u8 } else { 47u8 }))
    } else if code == 0x39 {
        Some(KeyEvent::Char(32u8))
    } else {
        None
    }
}

pub open spec fn is_letter(b: u8) -> bool {
    97 <= b <= 122
}

/// The decoder state and key after one scancode.
pub open spec fn spec_decode(s: KeyboardDecoder, scancode: u8) -> (KeyboardDecoder, Option<KeyEvent>) {
    let released = scancode >= 0x80;
    let code = (scancode % 0x80) as u8;
    if scancode == 0xe0 {
        (KeyboardDecoder { extended: true, ..s }, None)
    } else if code == 0x2a {
        (KeyboardDecoder { shift_left: !released, ..s }, None)
    } else if code == 0x36 {
        (KeyboardDecoder { shift_right: !released, ..s }, None)
    } else if released {
        (KeyboardDecoder { extended: false, ..s }, None)
    } else if code == 0x3a {
        (KeyboardDecoder { caps_lock: !s.caps_lock, ..s }, None)
    } else if s.extended {
        (
            KeyboardDecoder { extended: false, ..s },
            if code == 0x48 {
                Some(KeyEvent::ArrowUp)
            } else if code == 0x50 {
                Some(KeyEvent::ArrowDown)
            } else {
                None
            },
        )
    } else {
        let shift = s.shift_left || s.shift_right;
        let event = base_key(code, shift);
        (
            s,
            match event {
                Some(KeyEvent::Char(b)) => if is_letter(b) && (shift != s.caps_lock) {
                    Some(KeyEvent::Char((b - 32) as u8))
                } else {
                    event
                },
                _ => event,
            },
        )
    }
}

impl KeyboardDecoder {
    pub fn new() -> (r: Self)
        ensures
            r == (KeyboardDecoder {
                shift_left: false,
                shift_right: false,
                caps_lock: false,
                extended: false,
            }),
    {
        Self { shift_left: false, shift_right: false, caps_lock: false, extended: false }
    }

    /// Translates one scan-code-set-1 byte, tracking shift, caps lock and the
    /// extended-key prefix.
    pub fn decode(&mut self, scancode: u8) -> (r: Option<KeyEvent>)
        ensures
            (*final(self), r) == spec_decode(*old(self), scancode),
    {
        if scancode == 0xe0 {
            self.extended = true;
            return None;
        }
        let released = scancode & 0x80 != 0;
        let code = scancode & 0x7f;
        assert(released == (scancode >= 0x80) && code == scancode % 0x80) by (bit_vector)
            requires
                released == (scancode & 0x80 != 0),
                code == scancode & 0x7f,
        ;
        if code == 0x2a {
            self.shift_left = !released;
            return None;
        }
        if code == 0x36 {
            self.shift_right = !released;
            return None;
        }
        if released {
            self.extended = false;
            return None;
        }
        if code == 0x3a {
            self.caps_lock = !self.caps_lock;
            return None;
        }
        if self.extended {
            self.extended = false;
            return match code {
                0x48 => Some(KeyEvent::ArrowUp),
                0x50 => Some(KeyEvent::ArrowDown),
                _ => None,
            };
        }
        let shift = self.shift_left || self.shift_right;
        let event = key_for(code, shift);
        match event {
            Some(KeyEvent::Char(byte)) => {
                if 97 <= byte && byte <= 122 && (shift != self.caps_lock) {
                    Some(KeyEvent::Char(byte - 32))
                } else {
                    event
                }
            },
            _ => event,
        }
    }
}

fn key_for(code: u8, shift: bool) -> (r: Option<KeyEvent>)
    ensures
        r == base_key(code, shift),
{
    match code {
        0x01 => Some(KeyEvent::Escape),
        0x0f => Some(KeyEvent::Tab),
        0x0e => Some(KeyEvent::Backspace),
        0x1c => Some(KeyEvent::Enter),
        0x02 => Some(KeyEvent::Char(if shift { 33u8 } else { 49u8 })),
        0x03 => Some(KeyEvent::Char(if shift { 64u8 } else { 50u8 })),
        0x04 => Some(KeyEvent::Char(if shift { 35u8 } else { 51u8 })),
        0x05 => Some(KeyEvent::Char(if shift { 36u8 } else { 52u8 })),
        0x06 => Some(KeyEvent::Char(if shift { 37u8 } else { 53u8 })),
        0x07 => Some(KeyEvent::Char(if shift { 94u8 } else { 54u8 })),
        0x08 => Some(KeyEvent::Char(if shift { 38u8 } else { 55u8 })),
        0x09 => Some(KeyEvent::Char(if shift { 42u8 } else { 56u8 })),
        0x0a => Some(KeyEvent::Char(if shift { 40u8 } else { 57u8 })),
        0x0b => Some(KeyEvent::Char(if shift { 41u8 } else { 48u8 })),
        0x0c => Some(KeyEvent::Char(if shift { 95u8 } else { 45u8 })),
        0x0d => Some(KeyEvent::Char(if shift { 43u8 } else { 61u8 })),
        0x10 => Some(KeyEvent::Char(113u8)),
        0x11 => Some(KeyEvent::Char(119u8)),
        0x12 => Some(KeyEvent::Char(101u8)),
        0x13 => Some(KeyEvent::Char(114u8)),
        0x14 => Some(KeyEvent::Char(116u8)),
        0x15 => Some(KeyEvent::Char(121u8)),
        0x16 => Some(KeyEvent::Char(117u8)),
        0x17 => Some(KeyEvent::Char(105u8)),
        0x18 => Some(KeyEvent::Char(111u8)),
        0x19 => Some(KeyEvent::Char(112u8)),
        0x1a => Some(KeyEvent::Char(if shift { 123u8 } else { 91u8 })),
        0x1b => Some(KeyEvent::Char(if shift { 125u8 } else { 93u8 })),
        0x1e => Some(KeyEvent::Char(97u8)),
        0x1f => Some(KeyEvent::Char(115u8)),
        0x20 => Some(KeyEvent::Char(100u8)),
        0x21 => Some(KeyEvent::Char(102u8)),
        0x22 => Some(KeyEvent::Char(103u8)),
        0x23 => Some(KeyEvent::Char(104u8)),
        0x24 => Some(KeyEvent::Char(106u8)),
        0x25 => Some(KeyEvent::Char(107u8)),
        0x26 => Some(KeyEvent::Char(108u8)),
        0x27 => Some(KeyEvent::Char(if shift { 58u8 } else { 59u8 })),
        0x28 => Some(KeyEvent::Char(if shift { 34u8 } else { 39u8 })),
        0x29 => Some(KeyEvent::Char(if shift { 126u8 } else { 96u8 })),
        0x2b => Some(KeyEvent::Char(if shift { 124u8 } else { 92u8 })),
        0x2c => Some(KeyEvent::Char(122u8)),
        0x2d => Some(KeyEvent::Char(120u8)),
        0x2e => Some(KeyEvent::Char(99u8)),
        0x2f => Some(KeyEvent::Char(118u8)),
        0x30 => Some(KeyEvent::Char(98u8)),
        0x31 => Some(KeyEvent::Char(110u8)),
        0x32 => Some(KeyEvent::Char(109u8)),
        0x33 => Some(KeyEvent::Char(if shift { 60u8 } else { 44u8 })),
        0x34 => Some(KeyEvent::Char(if shift { 62u8 } else { 46u8 })),
        0x35 => Some(KeyEvent::Char(if shift { 63u8 } else { 47u8 })),
        0x39 => Some(KeyEvent::Char(32u8)),
        _ => None,
    }
}

#[derive(Clone, Copy)]
pub struct MouseDecoder {
    packet: [u8; 3],
    index: usize,
    last_buttons: MouseButtons,
}

/// The signed motion of a packet axis with its sign bit.
pub open spec fn motion(raw: u8, negative: bool) -> i32 {
    if negative {
        (raw - 256) as i32
    } else {
        raw as i32
    }
}

/// The buttons reported by a packet's status byte.
pub open spec fn status_buttons(status: u8) -> MouseButtons {
    MouseButtons {
        left: status & 1 != 0,
        right: status & 2 != 0,
        middle: status & 4 != 0,
    }
}

/// The event of a complete packet: a button change without motion is a
/// button event at `position`, anything else a move.
pub open spec fn packet_event(status: u8, x: u8, y: u8, last: MouseButtons, position: Point) -> InputEvent {
    let dx = motion(x, status & 0x10 != 0);
    let dy = motion(y, status & 0x20 != 0);
    let buttons = status_buttons(status);
    if buttons != last && dx == 0 && dy == 0 {
        InputEvent::MouseButton { position, buttons }
    } else {
        InputEvent::MouseMove { dx, dy, buttons }
    }
}

impl MouseDecoder {
    pub closed spec fn index(&self) -> int {
        self.index as int
    }

    pub closed spec fn pending(&self) -> Seq<u8> {
        self.packet@.subrange(0, self.index as int)
    }

    pub closed spec fn last_buttons(&self) -> MouseButtons {
        self.last_buttons
    }

    pub closed spec fn wf(&self) -> bool {
        self.index < 3
    }

    pub fn new() -> (r: Self)
        ensures
            r.wf(),
            r.index() == 0,
            r.pending() == Seq::<u8>::empty(),
            r.last_buttons() == (MouseButtons { left: false, right: false, middle: false }),
    {
        let r = Self { packet: [0u8; 3], index: 0, last_buttons: MouseButtons::empty() };
        assert(r.pending() =~= Seq::<u8>::empty());
        r
    }

    /// A well-formed decoder holds fewer than three bytes, and its index
    /// counts them.
    pub proof fn lemma_wf(&self)
        requires
            self.wf(),
        ensures
            0 <= self.index() < 3,
            self.pending().len() == self.index(),
    {
    }

    /// Collects a three-byte packet; the first byte must have bit 3 set, which
    /// resynchronizes a stream that lost a byte.
    pub fn push_byte(&mut self, byte: u8, position: Point) -> (r: Option<InputEvent>)
        requires
            old(self).wf(),
        ensures
            final(self).wf(),
            old(self).index() == 0 && byte & 8 == 0 ==> r is None && final(self).index() == 0
                && final(self).pending() == Seq::<u8>::empty()
                && final(self).last_buttons() == old(self).last_buttons(),
            !(old(self).index() == 0 && byte & 8 == 0) && old(self).index() < 2 ==> r is None
                && final(self).index() == old(self).index() + 1
                && final(self).pending() == old(self).pending().push(byte)
                && final(self).last_buttons() == old(self).last_buttons(),
            old(self).index() == 2 ==> final(self).index() == 0 && final(self).pending() == Seq::<u8>::empty()
                && r == Some(packet_event(
                old(self).pending()[0],
                old(self).pending()[1],
                byte,
                old(self).last_buttons(),
                position,
            )) && final(self).last_buttons() == status_buttons(old(self).pending()[0]),
    {
        if self.index == 0 && byte & 0x08 == 0 {
            assert(self.pending() =~= Seq::<u8>::empty());
            return None;
        }
        self.packet[self.index] = byte;
        self.index += 1;
        if self.index < 3 {
            assert(self.pending() =~= old(self).pending().push(byte));
            return None;
        }
        self.index = 0;
        assert(self.pending() =~= Seq::<u8>::empty());
        let status = self.packet[0];
        let mut dx = self.packet[1] as i32;
        let mut dy = self.packet[2] as i32;
        if status & 0x10 != 0 {
            dx -= 256;
        }
        if status & 0x20 != 0 {
            dy -= 256;
        }
        let buttons = MouseButtons {
            left: status & 0x01 != 0,
            right: status & 0x02 != 0,
            middle: status & 0x04 != 0,
        };
        let moved = dx != 0 || dy != 0;
        let changed = !(buttons.left == self.last_buttons.left && buttons.right
            == self.last_buttons.right && buttons.middle == self.last_buttons.middle);
        self.last_buttons = buttons;
        if changed && !moved {
            Some(InputEvent::MouseButton { position, buttons })
        } else {
            Some(InputEvent::MouseMove { dx, dy, buttons })
        }
    }
}

} // verus!
