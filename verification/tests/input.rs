use genos::abi::{
    UserInputEvent, USER_INPUT_KIND_KEY, USER_INPUT_KIND_POINTER_BUTTON,
    USER_INPUT_KIND_POINTER_MOVE, USER_INPUT_MASK_KEYBOARD, USER_INPUT_MASK_POINTER,
    USER_KEY_CHAR, USER_POINTER_BUTTON_LEFT, USER_POINTER_BUTTON_MIDDLE,
    USER_POINTER_BUTTON_RIGHT,
};
use genos::display::geometry::Point;
use genos::input::{
    EventQueue, InputEvent, KeyEvent, KeyboardDecoder, MouseButtons, MouseDecoder, MouseState,
    EVENT_QUEUE_CAP,
};

#[test]
fn keyboard_decodes_letters_and_enter() {
    let mut decoder = KeyboardDecoder::new();
    assert_eq!(decoder.decode(0x23), Some(KeyEvent::Char(b'h')));
    assert_eq!(decoder.decode(0x1c), Some(KeyEvent::Enter));
    assert_eq!(decoder.decode(0x9c), None);
}

#[test]
fn keyboard_tracks_shift_caps_and_arrows() {
    let mut decoder = KeyboardDecoder::new();
    assert_eq!(decoder.decode(0x2a), None);
    assert_eq!(decoder.decode(0x23), Some(KeyEvent::Char(b'H')));
    assert_eq!(decoder.decode(0xaa), None);
    assert_eq!(decoder.decode(0x3a), None);
    assert_eq!(decoder.decode(0x17), Some(KeyEvent::Char(b'I')));
    assert_eq!(decoder.decode(0xe0), None);
    assert_eq!(decoder.decode(0x48), Some(KeyEvent::ArrowUp));
}

#[test]
fn shift_and_caps_cancel_for_letters_only() {
    let mut decoder = KeyboardDecoder::new();
    decoder.decode(0x3a);
    decoder.decode(0x36);
    assert_eq!(decoder.decode(0x1e), Some(KeyEvent::Char(b'a')));
    assert_eq!(decoder.decode(0x02), Some(KeyEvent::Char(b'!')));
    decoder.decode(0xb6);
    assert_eq!(decoder.decode(0x02), Some(KeyEvent::Char(b'1')));
    assert_eq!(decoder.decode(0x7f), None);
    decoder.decode(0xe0);
    assert_eq!(decoder.decode(0x10), None);
    assert_eq!(decoder.decode(0x10), Some(KeyEvent::Char(b'Q')));
}

#[test]
fn event_queue_wraps_and_counts_drops() {
    let mut queue = EventQueue::new();
    for _ in 0..(EVENT_QUEUE_CAP + 2) {
        queue.push(InputEvent::Key(KeyEvent::Char(b'x')));
    }
    assert_eq!(queue.len(), EVENT_QUEUE_CAP);
    assert_eq!(queue.dropped(), 2);
}

#[test]
fn full_queue_drops_the_oldest_event() {
    let mut queue = EventQueue::new();
    for i in 0..(EVENT_QUEUE_CAP as u8 + 1) {
        queue.push(InputEvent::Key(KeyEvent::Char(i)));
    }
    assert_eq!(queue.pop(), Some(InputEvent::Key(KeyEvent::Char(1))));
    let mut last = None;
    while let Some(event) = queue.pop() {
        last = Some(event);
    }
    assert_eq!(last, Some(InputEvent::Key(KeyEvent::Char(EVENT_QUEUE_CAP as u8))));
    assert!(queue.is_empty());
    assert_eq!(queue.pop(), None);
}

#[test]
fn mouse_packet_decodes_motion_and_buttons() {
    let mut decoder = MouseDecoder::new();
    assert_eq!(decoder.push_byte(0x29, Point::new(10, 10)), None);
    assert_eq!(decoder.push_byte(5, Point::new(10, 10)), None);
    assert_eq!(
        decoder.push_byte(253, Point::new(10, 10)),
        Some(InputEvent::MouseMove {
            dx: 5,
            dy: -3,
            buttons: MouseButtons {
                left: true,
                right: false,
                middle: false,
            }
        })
    );
}

#[test]
fn mouse_resyncs_and_reports_button_changes() {
    let mut decoder = MouseDecoder::new();
    assert_eq!(decoder.push_byte(0x00, Point::new(1, 2)), None);
    assert_eq!(decoder.push_byte(0x0a, Point::new(1, 2)), None);
    assert_eq!(decoder.push_byte(0, Point::new(1, 2)), None);
    assert_eq!(
        decoder.push_byte(0, Point::new(1, 2)),
        Some(InputEvent::MouseButton {
            position: Point::new(1, 2),
            buttons: MouseButtons { left: false, right: true, middle: false },
        })
    );
}

#[test]
fn mouse_state_accelerates_motion() {
    let mut state = MouseState::new(Point::new(10, 10));
    state.apply_move(3, -3, 100, 100, MouseButtons::empty());
    assert_eq!(state.position, Point::new(22, 22));
}

#[test]
fn mouse_state_clamps_to_the_screen() {
    let mut state = MouseState::new(Point::new(10, 10));
    state.apply_move(-20, -20, 100, 50, MouseButtons::empty());
    assert_eq!(state.position, Point::new(0, 50));
    state.apply_move(8, 1, -5, 100, MouseButtons::empty());
    assert_eq!(state.position, Point::new(0, 47));
}

#[test]
fn user_events_preserve_key_pointer_and_button_data() {
    let key = InputEvent::Key(KeyEvent::Char(b'G'));
    assert_eq!(key.user_mask(), USER_INPUT_MASK_KEYBOARD);
    assert_eq!(
        key.to_user_event(),
        UserInputEvent {
            kind: USER_INPUT_KIND_KEY,
            code: USER_KEY_CHAR,
            value0: b'G' as i64,
            value1: 0,
        }
    );

    let movement = InputEvent::MouseMove {
        dx: -4,
        dy: 7,
        buttons: MouseButtons {
            left: true,
            right: false,
            middle: true,
        },
    };
    assert_eq!(movement.user_mask(), USER_INPUT_MASK_POINTER);
    assert_eq!(
        movement.to_user_event(),
        UserInputEvent {
            kind: USER_INPUT_KIND_POINTER_MOVE,
            code: USER_POINTER_BUTTON_LEFT | USER_POINTER_BUTTON_MIDDLE,
            value0: -4,
            value1: 7,
        }
    );

    assert_eq!(
        InputEvent::MouseButton {
            position: Point::new(320, 240),
            buttons: MouseButtons {
                left: false,
                right: true,
                middle: false,
            },
        }
        .to_user_event(),
        UserInputEvent {
            kind: USER_INPUT_KIND_POINTER_BUTTON,
            code: USER_POINTER_BUTTON_RIGHT,
            value0: 320,
            value1: 240,
        }
    );
}
