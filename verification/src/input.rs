//! Host events and what they mean to the engine's input state.

use vstd::prelude::*;

use crate::host_api::{KeyCode, PointerButton, RfvpEvent};

verus! {

/// A key that the engine has an input bit for.
#[derive(Debug, Clone, Copy, PartialEq, Eq, Structural)]
pub enum InputKeyCode {
    Esc,
    Enter,
    Space,
    Tab,
    LeftArrow,
    RightArrow,
    UpArrow,
    DownArrow,
    Shift,
    Ctrl,
    F1,
    F2,
    F3,
    F4,
    F5,
    F6,
    F7,
    F8,
    F9,
    F10,
    F11,
    F12,
}

/// The input bit of a host key, if it has one.
pub open spec fn input_key(key: KeyCode) -> Option<InputKeyCode> {
    match key {
        KeyCode::Escape => Some(InputKeyCode::Esc),
        KeyCode::Return => Some(InputKeyCode::Enter),
        KeyCode::Space => Some(InputKeyCode::Space),
        KeyCode::Tab => Some(InputKeyCode::Tab),
        KeyCode::Left => Some(InputKeyCode::LeftArrow),
        KeyCode::Right => Some(InputKeyCode::RightArrow),
        KeyCode::Up => Some(InputKeyCode::UpArrow),
        KeyCode::Down => Some(InputKeyCode::DownArrow),
        KeyCode::Shift => Some(InputKeyCode::Shift),
        KeyCode::Control => Some(InputKeyCode::Ctrl),
        KeyCode::Function(1) => Some(InputKeyCode::F1),
        KeyCode::Function(2) => Some(InputKeyCode::F2),
        KeyCode::Function(3) => Some(InputKeyCode::F3),
        KeyCode::Function(4) => Some(InputKeyCode::F4),
        KeyCode::Function(5) => Some(InputKeyCode::F5),
        KeyCode::Function(6) => Some(InputKeyCode::F6),
        KeyCode::Function(7) => Some(InputKeyCode::F7),
        KeyCode::Function(8) => Some(InputKeyCode::F8),
        KeyCode::Function(9) => Some(InputKeyCode::F9),
        KeyCode::Function(10) => Some(InputKeyCode::F10),
        KeyCode::Function(11) => Some(InputKeyCode::F11),
        KeyCode::Function(12) => Some(InputKeyCode::F12),
        _ => None,
    }
}

pub fn hosted_keycode(key: KeyCode) -> (r: Option<InputKeyCode>)
    ensures
        r == input_key(key),
{
    match key {
        KeyCode::Escape => Some(InputKeyCode::Esc),
        KeyCode::Return => Some(InputKeyCode::Enter),
        KeyCode::Space => Some(InputKeyCode::Space),
        KeyCode::Tab => Some(InputKeyCode::Tab),
        KeyCode::Left => Some(InputKeyCode::LeftArrow),
        KeyCode::Right => Some(InputKeyCode::RightArrow),
        KeyCode::Up => Some(InputKeyCode::UpArrow),
        KeyCode::Down => Some(InputKeyCode::DownArrow),
        KeyCode::Shift => Some(InputKeyCode::Shift),
        KeyCode::Control => Some(InputKeyCode::Ctrl),
        KeyCode::Function(number) => match number {
            1 => Some(InputKeyCode::F1),
            2 => Some(InputKeyCode::F2),
            3 => Some(InputKeyCode::F3),
            4 => Some(InputKeyCode::F4),
            5 => Some(InputKeyCode::F5),
            6 => Some(InputKeyCode::F6),
            7 => Some(InputKeyCode::F7),
            8 => Some(InputKeyCode::F8),
            9 => Some(InputKeyCode::F9),
            10 => Some(InputKeyCode::F10),
            11 => Some(InputKeyCode::F11),
            12 => Some(InputKeyCode::F12),
            _ => None,
        },
        _ => None,
    }
}

/// A change of the engine's input state.
#[derive(Debug, Clone, Copy, PartialEq, Eq, Structural)]
pub enum InputAction {
    KeyDown { key: InputKeyCode, repeat: bool },
    KeyUp { key: InputKeyCode },
    MouseMove { x: i32, y: i32, in_screen: bool },
    MouseLeftDown,
    MouseLeftUp,
    MouseWheel { delta: i32 },
}

/// What an event changes: keys without an input bit, other buttons than the left
/// one and the quit event change nothing.
pub open spec fn action_of(event: RfvpEvent) -> Option<InputAction> {
    match event {
        RfvpEvent::KeyDown { key, repeat, .. } => match input_key(key) {
            Some(k) => Some(InputAction::KeyDown { key: k, repeat }),
            None => None,
        },
        RfvpEvent::KeyUp { key, .. } => match input_key(key) {
            Some(k) => Some(InputAction::KeyUp { key: k }),
            None => None,
        },
        RfvpEvent::PointerMove { x, y, in_screen } => Some(
            InputAction::MouseMove { x, y, in_screen },
        ),
        RfvpEvent::PointerDown { button: PointerButton::Left, .. } => Some(InputAction::MouseLeftDown),
        RfvpEvent::PointerUp { button: PointerButton::Left, .. } => Some(InputAction::MouseLeftUp),
        RfvpEvent::Wheel { delta_y, .. } => Some(InputAction::MouseWheel { delta: delta_y }),
        _ => None,
    }
}

/// The changes of a sequence of events, in order.
pub open spec fn actions_of(events: Seq<RfvpEvent>) -> Seq<InputAction>
    decreases events.len(),
{
    if events.len() == 0 {
        Seq::empty()
    } else {
        let before = actions_of(events.drop_last());
        match action_of(events.last()) {
            Some(action) => before.push(action),
            None => before,
        }
    }
}

pub fn input_action(event: RfvpEvent) -> (r: Option<InputAction>)
    ensures
        r == action_of(event),
{
    match event {
        RfvpEvent::KeyDown { key, repeat, .. } => match hosted_keycode(key) {
            Some(k) => Some(InputAction::KeyDown { key: k, repeat }),
            None => None,
        },
        RfvpEvent::KeyUp { key, .. } => match hosted_keycode(key) {
            Some(k) => Some(InputAction::KeyUp { key: k }),
            None => None,
        },
        RfvpEvent::PointerMove { x, y, in_screen } => Some(
            InputAction::MouseMove { x, y, in_screen },
        ),
        RfvpEvent::PointerDown { button: PointerButton::Left, .. } => Some(InputAction::MouseLeftDown),
        RfvpEvent::PointerUp { button: PointerButton::Left, .. } => Some(InputAction::MouseLeftUp),
        RfvpEvent::Wheel { delta_y, .. } => Some(InputAction::MouseWheel { delta: delta_y }),
        _ => None,
    }
}

/// The changes of all pending events, in order.
pub fn apply_pending_events_to_game_data(events: &Vec<RfvpEvent>) -> (r: Vec<InputAction>)
    ensures
        r@ == actions_of(events@),
{
    let mut actions: Vec<InputAction> = Vec::new();
    let mut i: usize = 0;
    assert(events@.subrange(0, 0) =~= Seq::<RfvpEvent>::empty());
    while i < events.len()
        invariant
            i <= events@.len(),
            actions@ == actions_of(events@.subrange(0, i as int)),
        decreases events@.len() - i,
    {
        let ghost next = events@.subrange(0, i + 1);
        assert(next.drop_last() =~= events@.subrange(0, i as int));
        assert(next.last() == events@[i as int]);
        match input_action(events[i]) {
            Some(action) => actions.push(action),
            None => {},
        }
        i = i + 1;
    }
    assert(events@.subrange(0, events@.len() as int) =~= events@);
    actions
}

/// Whether one of the events asks to quit.
pub open spec fn asks_to_quit(events: Seq<RfvpEvent>) -> bool {
    exists|i: int| 0 <= i < events.len() && #[trigger] events[i] == RfvpEvent::Quit
}

pub fn wants_quit(events: &Vec<RfvpEvent>) -> (r: bool)
    ensures
        r == asks_to_quit(events@),
{
    let mut i: usize = 0;
    while i < events.len()
        invariant
            i <= events@.len(),
            forall|j: int| 0 <= j < i ==> #[trigger] events@[j] != RfvpEvent::Quit,
        decreases events@.len() - i,
    {
        if events[i] == RfvpEvent::Quit {
            assert(events@[i as int] == RfvpEvent::Quit);
            return true;
        }
        i = i + 1;
    }
    false
}

// ----------------------------------------------------------------------- laws

proof fn lemma_one_more_event(events: Seq<RfvpEvent>, event: RfvpEvent)
    ensures
        actions_of(events.push(event)) == match action_of(event) {
            Some(action) => actions_of(events).push(action),
            None => actions_of(events),
        },
{
    assert(events.push(event).drop_last() =~= events);
}

/// A key that follows other events changes the bit of the same name, down or up as the
/// event says, and told as a repetition where it is one; held modifiers do not matter. A
/// key without a bit changes nothing.
pub proof fn law_keys_change_their_own_bits(
    events: Seq<RfvpEvent>,
    key: KeyCode,
    repeat: bool,
    modifiers: crate::host_api::InputModifiers,
)
    ensures
        ({
            let before = actions_of(events);
            let down = actions_of(events.push(RfvpEvent::KeyDown { key, repeat, modifiers }));
            let up = actions_of(events.push(RfvpEvent::KeyUp { key, modifiers }));
            let sets = |bit: InputKeyCode|
                {
                    &&& down == before.push(InputAction::KeyDown { key: bit, repeat })
                    &&& up == before.push(InputAction::KeyUp { key: bit })
                };
            let nothing = down == before && up == before;
            match key {
                KeyCode::Escape => sets(InputKeyCode::Esc),
                KeyCode::Return => sets(InputKeyCode::Enter),
                KeyCode::Space => sets(InputKeyCode::Space),
                KeyCode::Tab => sets(InputKeyCode::Tab),
                KeyCode::Left => sets(InputKeyCode::LeftArrow),
                KeyCode::Right => sets(InputKeyCode::RightArrow),
                KeyCode::Up => sets(InputKeyCode::UpArrow),
                KeyCode::Down => sets(InputKeyCode::DownArrow),
                KeyCode::Shift => sets(InputKeyCode::Shift),
                KeyCode::Control => sets(InputKeyCode::Ctrl),
                KeyCode::Function(n) => {
                    &&& n == 1 ==> sets(InputKeyCode::F1)
                    &&& n == 2 ==> sets(InputKeyCode::F2)
                    &&& n == 3 ==> sets(InputKeyCode::F3)
                    &&& n == 4 ==> sets(InputKeyCode::F4)
                    &&& n == 5 ==> sets(InputKeyCode::F5)
                    &&& n == 6 ==> sets(InputKeyCode::F6)
                    &&& n == 7 ==> sets(InputKeyCode::F7)
                    &&& n == 8 ==> sets(InputKeyCode::F8)
                    &&& n == 9 ==> sets(InputKeyCode::F9)
                    &&& n == 10 ==> sets(InputKeyCode::F10)
                    &&& n == 11 ==> sets(InputKeyCode::F11)
                    &&& n == 12 ==> sets(InputKeyCode::F12)
                    &&& n == 0 || n > 12 ==> nothing
                },
                KeyCode::Alt
                | KeyCode::Backspace
                | KeyCode::PageUp
                | KeyCode::PageDown
                | KeyCode::Home
                | KeyCode::End
                | KeyCode::Insert
                | KeyCode::Delete
                | KeyCode::Character(_)
                | KeyCode::Unknown(_) => nothing,
            }
        }),
{
    lemma_one_more_event(events, RfvpEvent::KeyDown { key, repeat, modifiers });
    lemma_one_more_event(events, RfvpEvent::KeyUp { key, modifiers });
}

/// The pointer's events change what they are about: a move takes the pointer to its
/// place, the left button goes down and up, the wheel turns by its upright part. Other
/// buttons and a wish to quit change nothing, and without an event nothing changes.
pub proof fn law_pointer_changes_what_it_is_about(
    events: Seq<RfvpEvent>,
    x: i32,
    y: i32,
    in_screen: bool,
)
    ensures
        actions_of(Seq::empty()) == Seq::<InputAction>::empty(),
        actions_of(events.push(RfvpEvent::PointerMove { x, y, in_screen })) == actions_of(
            events,
        ).push(InputAction::MouseMove { x, y, in_screen }),
        actions_of(events.push(RfvpEvent::Wheel { delta_x: x, delta_y: y })) == actions_of(
            events,
        ).push(InputAction::MouseWheel { delta: y }),
        actions_of(events.push(RfvpEvent::PointerDown { button: PointerButton::Left, x, y }))
            == actions_of(events).push(InputAction::MouseLeftDown),
        actions_of(events.push(RfvpEvent::PointerUp { button: PointerButton::Left, x, y }))
            == actions_of(events).push(InputAction::MouseLeftUp),
        actions_of(events.push(RfvpEvent::PointerDown { button: PointerButton::Right, x, y }))
            == actions_of(events),
        actions_of(events.push(RfvpEvent::PointerDown { button: PointerButton::Middle, x, y }))
            == actions_of(events),
        actions_of(events.push(RfvpEvent::PointerUp { button: PointerButton::Right, x, y }))
            == actions_of(events),
        actions_of(events.push(RfvpEvent::PointerUp { button: PointerButton::Middle, x, y }))
            == actions_of(events),
        actions_of(events.push(RfvpEvent::Quit)) == actions_of(events),
{
    lemma_one_more_event(events, RfvpEvent::PointerMove { x, y, in_screen });
    lemma_one_more_event(events, RfvpEvent::Wheel { delta_x: x, delta_y: y });
    lemma_one_more_event(events, RfvpEvent::Quit);
    lemma_one_more_event(events, RfvpEvent::PointerDown { button: PointerButton::Left, x, y });
    lemma_one_more_event(events, RfvpEvent::PointerUp { button: PointerButton::Left, x, y });
    lemma_one_more_event(events, RfvpEvent::PointerDown { button: PointerButton::Right, x, y });
    lemma_one_more_event(events, RfvpEvent::PointerUp { button: PointerButton::Right, x, y });
    lemma_one_more_event(events, RfvpEvent::PointerDown { button: PointerButton::Middle, x, y });
    lemma_one_more_event(events, RfvpEvent::PointerUp { button: PointerButton::Middle, x, y });
}

/// One wish to quit is enough, wherever it stands, and nothing else is one.
pub proof fn law_one_wish_to_quit_is_enough(events: Seq<RfvpEvent>, event: RfvpEvent)
    ensures
        !asks_to_quit(Seq::empty()),
        asks_to_quit(events.push(event)) <==> asks_to_quit(events) || event is Quit,
{
    let all = events.push(event);
    if asks_to_quit(events) {
        let i = choose|i: int| 0 <= i < events.len() && #[trigger] events[i] == RfvpEvent::Quit;
        assert(all[i] == RfvpEvent::Quit);
    }
    assert(all[events.len() as int] == event);
    if asks_to_quit(all) && !(event is Quit) {
        let i = choose|i: int| 0 <= i < all.len() && #[trigger] all[i] == RfvpEvent::Quit;
        assert(events[i] == RfvpEvent::Quit);
    }
}

}
