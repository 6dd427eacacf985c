//! Input state for a frame: which buttons are held, which went down or up
//! since the last update, and which gamepad is which player.

use vstd::prelude::*;

use std::collections::{HashMap, HashSet};

verus! {

broadcast use vstd::std_specs::hash::group_hash_axioms;

/// A key of the keyboard, by its position.
#[derive(Copy, Clone, Debug, PartialEq, Eq, Hash, Structural)]
pub enum Key {
    Space,
    Backspace,
    Enter,
    Tab,
    CapsLock,
    Escape,
    LeftShift,
    LeftCtrl,
    LeftAlt,
    Up,
    Down,
    Left,
    Right,
    A,
    B,
    C,
    D,
    E,
    F,
    G,
    H,
    I,
    J,
    K,
    L,
    M,
    N,
    O,
    P,
    Q,
    R,
    S,
    T,
    U,
    V,
    W,
    X,
    Y,
    Z,
    Grave,
    Num0,
    Num1,
    Num2,
    Num3,
    Num4,
    Num5,
    Num6,
    Num7,
    Num8,
    Num9,
    Minus,
    Equals,
    F1,
    F2,
    F3,
    F4,
    F5,
    F6,
    F7,
    F8,
    F9,
    F10,
    F11,
    F12,
}

impl Key {
    /// A number that tells this key from the others.
    pub open spec fn code_spec(self) -> u64 {
        match self {
            Key::Space => 0,
            Key::Backspace => 1,
            Key::Enter => 2,
            Key::Tab => 3,
            Key::CapsLock => 4,
            Key::Escape => 5,
            Key::LeftShift => 6,
            Key::LeftCtrl => 7,
            Key::LeftAlt => 8,
            Key::Up => 9,
            Key::Down => 10,
            Key::Left => 11,
            Key::Right => 12,
            Key::A => 13,
            Key::B => 14,
            Key::C => 15,
            Key::D => 16,
            Key::E => 17,
            Key::F => 18,
            Key::G => 19,
            Key::H => 20,
            Key::I => 21,
            Key::J => 22,
            Key::K => 23,
            Key::L => 24,
            Key::M => 25,
            Key::N => 26,
            Key::O => 27,
            Key::P => 28,
            Key::Q => 29,
            Key::R => 30,
            Key::S => 31,
            Key::T => 32,
            Key::U => 33,
            Key::V => 34,
            Key::W => 35,
            Key::X => 36,
            Key::Y => 37,
            Key::Z => 38,
            Key::Grave => 39,
            Key::Num0 => 40,
            Key::Num1 => 41,
            Key::Num2 => 42,
            Key::Num3 => 43,
            Key::Num4 => 44,
            Key::Num5 => 45,
            Key::Num6 => 46,
            Key::Num7 => 47,
            Key::Num8 => 48,
            Key::Num9 => 49,
            Key::Minus => 50,
            Key::Equals => 51,
            Key::F1 => 52,
            Key::F2 => 53,
            Key::F3 => 54,
            Key::F4 => 55,
            Key::F5 => 56,
            Key::F6 => 57,
            Key::F7 => 58,
            Key::F8 => 59,
            Key::F9 => 60,
            Key::F10 => 61,
            Key::F11 => 62,
            Key::F12 => 63,
        }
    }

    pub fn code(&self) -> (r: u64)
        ensures
            r == self.code_spec(),
            r < 64,
    {
        match self {
            Key::Space => 0,
            Key::Backspace => 1,
            Key::Enter => 2,
            Key::Tab => 3,
            Key::CapsLock => 4,
            Key::Escape => 5,
            Key::LeftShift => 6,
            Key::LeftCtrl => 7,
            Key::LeftAlt => 8,
            Key::Up => 9,
            Key::Down => 10,
            Key::Left => 11,
            Key::Right => 12,
            Key::A => 13,
            Key::B => 14,
            Key::C => 15,
            Key::D => 16,
            Key::E => 17,
            Key::F => 18,
            Key::G => 19,
            Key::H => 20,
            Key::I => 21,
            Key::J => 22,
            Key::K => 23,
            Key::L => 24,
            Key::M => 25,
            Key::N => 26,
            Key::O => 27,
            Key::P => 28,
            Key::Q => 29,
            Key::R => 30,
            Key::S => 31,
            Key::T => 32,
            Key::U => 33,
            Key::V => 34,
            Key::W => 35,
            Key::X => 36,
            Key::Y => 37,
            Key::Z => 38,
            Key::Grave => 39,
            Key::Num0 => 40,
            Key::Num1 => 41,
            Key::Num2 => 42,
            Key::Num3 => 43,
            Key::Num4 => 44,
            Key::Num5 => 45,
            Key::Num6 => 46,
            Key::Num7 => 47,
            Key::Num8 => 48,
            Key::Num9 => 49,
            Key::Minus => 50,
            Key::Equals => 51,
            Key::F1 => 52,
            Key::F2 => 53,
            Key::F3 => 54,
            Key::F4 => 55,
            Key::F5 => 56,
            Key::F6 => 57,
            Key::F7 => 58,
            Key::F8 => 59,
            Key::F9 => 60,
            Key::F10 => 61,
            Key::F11 => 62,
            Key::F12 => 63,
        }
    }
}

/// A mouse button.
#[derive(Copy, Clone, Debug, PartialEq, Eq, Hash, Structural)]
pub enum MouseButton {
    Left,
    Middle,
    Right,
    X1,
    X2,
}

impl MouseButton {
    /// A number that tells this mousebutton from the others.
    pub open spec fn code_spec(self) -> u64 {
        match self {
            MouseButton::Left => 0,
            MouseButton::Middle => 1,
            MouseButton::Right => 2,
            MouseButton::X1 => 3,
            MouseButton::X2 => 4,
        }
    }

    pub fn code(&self) -> (r: u64)
        ensures
            r == self.code_spec(),
            r < 5,
    {
        match self {
            MouseButton::Left => 0,
            MouseButton::Middle => 1,
            MouseButton::Right => 2,
            MouseButton::X1 => 3,
            MouseButton::X2 => 4,
        }
    }
}

/// A gamepad button, by its position on an Xbox-style pad.
#[derive(Copy, Clone, Debug, PartialEq, Eq, Hash, Structural)]
pub enum GamepadButton {
    A,
    B,
    X,
    Y,
    Back,
    Guide,
    Start,
    LeftStick,
    RightStick,
    LeftShoulder,
    RightShoulder,
    Up,
    Down,
    Left,
    Right,
}

impl GamepadButton {
    /// A number that tells this gamepadbutton from the others.
    pub open spec fn code_spec(self) -> u64 {
        match self {
            GamepadButton::A => 0,
            GamepadButton::B => 1,
            GamepadButton::X => 2,
            GamepadButton::Y => 3,
            GamepadButton::Back => 4,
            GamepadButton::Guide => 5,
            GamepadButton::Start => 6,
            GamepadButton::LeftStick => 7,
            GamepadButton::RightStick => 8,
            GamepadButton::LeftShoulder => 9,
            GamepadButton::RightShoulder => 10,
            GamepadButton::Up => 11,
            GamepadButton::Down => 12,
            GamepadButton::Left => 13,
            GamepadButton::Right => 14,
        }
    }

    pub fn code(&self) -> (r: u64)
        ensures
            r == self.code_spec(),
            r < 15,
    {
        match self {
            GamepadButton::A => 0,
            GamepadButton::B => 1,
            GamepadButton::X => 2,
            GamepadButton::Y => 3,
            GamepadButton::Back => 4,
            GamepadButton::Guide => 5,
            GamepadButton::Start => 6,
            GamepadButton::LeftStick => 7,
            GamepadButton::RightStick => 8,
            GamepadButton::LeftShoulder => 9,
            GamepadButton::RightShoulder => 10,
            GamepadButton::Up => 11,
            GamepadButton::Down => 12,
            GamepadButton::Left => 13,
            GamepadButton::Right => 14,
        }
    }
}

/// A gamepad axis.
#[derive(Copy, Clone, Debug, PartialEq, Eq, Hash, Structural)]
pub enum GamepadAxis {
    LeftStickX,
    LeftStickY,
    RightStickX,
    RightStickY,
    LeftTrigger,
    RightTrigger,
}

impl GamepadAxis {
    /// A number that tells this gamepadaxis from the others.
    pub open spec fn code_spec(self) -> u64 {
        match self {
            GamepadAxis::LeftStickX => 0,
            GamepadAxis::LeftStickY => 1,
            GamepadAxis::RightStickX => 2,
            GamepadAxis::RightStickY => 3,
            GamepadAxis::LeftTrigger => 4,
            GamepadAxis::RightTrigger => 5,
        }
    }

    pub fn code(&self) -> (r: u64)
        ensures
            r == self.code_spec(),
            r < 6,
    {
        match self {
            GamepadAxis::LeftStickX => 0,
            GamepadAxis::LeftStickY => 1,
            GamepadAxis::RightStickX => 2,
            GamepadAxis::RightStickY => 3,
            GamepadAxis::LeftTrigger => 4,
            GamepadAxis::RightTrigger => 5,
        }
    }
}

/// An analog stick, made of two axes.
#[derive(Copy, Clone, Debug, PartialEq, Eq, Hash, Structural)]
pub enum GamepadStick {
    LeftStick,
    RightStick,
}

impl GamepadStick {
    /// The horizontal and the vertical axis of the stick.
    pub fn to_axes(&self) -> (r: (GamepadAxis, GamepadAxis))
        ensures
            r == match self {
                GamepadStick::LeftStick => (GamepadAxis::LeftStickX, GamepadAxis::LeftStickY),
                GamepadStick::RightStick => (GamepadAxis::RightStickX, GamepadAxis::RightStickY),
            },
    {
        match self {
            GamepadStick::LeftStick => (GamepadAxis::LeftStickX, GamepadAxis::LeftStickY),
            GamepadStick::RightStick => (GamepadAxis::RightStickX, GamepadAxis::RightStickY),
        }
    }
}

/// Raw axis readings whose magnitude is at most this count as centered.
pub const AXIS_DEADZONE: i16 = 6553;

/// A raw axis reading with the dead zone around the center removed.
pub open spec fn axis_after_deadzone(raw: i16) -> i16 {
    if -AXIS_DEADZONE <= raw && raw <= AXIS_DEADZONE {
        0
    } else {
        raw
    }
}

/// Removes the dead zone around an axis's center: readings within a fifth
/// of the full range count as zero.
pub fn apply_deadzone(raw: i16) -> (r: i16)
    ensures
        r == axis_after_deadzone(raw),
{
    if -AXIS_DEADZONE <= raw && raw <= AXIS_DEADZONE {
        0
    } else {
        raw
    }
}

/// The code of a gamepad button of a player, unique to the pair.
pub open spec fn pad_code(player: usize, code: u64) -> u128 {
    (player as int * 16 + code) as u128
}

fn pad_key(player: usize, code: u64) -> (r: u128)
    requires
        code < 16,
    ensures
        r == pad_code(player, code),
{
    player as u128 * 16 + code as u128
}

/// Which buttons are held, and which went down or up since the last clear.
pub struct ButtonState {
    down: HashSet<u128>,
    pressed: HashSet<u128>,
    released: HashSet<u128>,
}

impl ButtonState {
    pub closed spec fn down_set(&self) -> Set<u128> {
        self.down@
    }

    pub closed spec fn pressed_set(&self) -> Set<u128> {
        self.pressed@
    }

    pub closed spec fn released_set(&self) -> Set<u128> {
        self.released@
    }

    pub fn new() -> (r: ButtonState)
        ensures
            r.down_set() == Set::<u128>::empty(),
            r.pressed_set() == Set::<u128>::empty(),
            r.released_set() == Set::<u128>::empty(),
    {
        ButtonState { down: HashSet::new(), pressed: HashSet::new(), released: HashSet::new() }
    }

    /// Forgets which buttons went down or up; held buttons stay held.
    pub fn clear(&mut self)
        ensures
            final(self).down_set() == old(self).down_set(),
            final(self).pressed_set() == Set::<u128>::empty(),
            final(self).released_set() == Set::<u128>::empty(),
    {
        self.pressed.clear();
        self.released.clear();
    }

    /// The button goes down; it counts as pressed if it was up.
    pub fn set_down(&mut self, button: u128)
        ensures
            final(self).down_set() == old(self).down_set().insert(button),
            final(self).pressed_set() == if old(self).down_set().contains(button) {
                old(self).pressed_set()
            } else {
                old(self).pressed_set().insert(button)
            },
            final(self).released_set() == old(self).released_set(),
    {
        let was_up = self.down.insert(button);
        if was_up {
            self.pressed.insert(button);
        }
    }

    /// The button goes up; it counts as released if it was down.
    pub fn set_up(&mut self, button: u128)
        ensures
            final(self).down_set() == old(self).down_set().remove(button),
            final(self).released_set() == if old(self).down_set().contains(button) {
                old(self).released_set().insert(button)
            } else {
                old(self).released_set()
            },
            final(self).pressed_set() == old(self).pressed_set(),
    {
        let was_down = self.down.remove(&button);
        if was_down {
            self.released.insert(button);
        }
    }

    pub fn is_down(&self, button: u128) -> (r: bool)
        ensures
            r == self.down_set().contains(button),
    {
        self.down.contains(&button)
    }

    pub fn is_up(&self, button: u128) -> (r: bool)
        ensures
            r == !self.down_set().contains(button),
    {
        !self.down.contains(&button)
    }

    pub fn is_pressed(&self, button: u128) -> (r: bool)
        ensures
            r == self.pressed_set().contains(button),
    {
        self.pressed.contains(&button)
    }

    pub fn is_released(&self, button: u128) -> (r: bool)
        ensures
            r == self.released_set().contains(button),
    {
        self.released.contains(&button)
    }
}

/// Slot `i` is the first free one.
pub open spec fn is_first_free<G>(slots: Seq<Option<G>>, i: int) -> bool {
    &&& 0 <= i < slots.len()
    &&& slots[i] is None
    &&& forall|j: int| 0 <= j < i ==> #[trigger] slots[j] is Some
}

/// The slot that a new gamepad takes: the first free one, or a new one at
/// the end.
pub open spec fn free_slot<G>(slots: Seq<Option<G>>) -> int {
    if exists|i: int| is_first_free(slots, i) {
        choose|i: int| is_first_free(slots, i)
    } else {
        slots.len() as int
    }
}

/// The state of the keyboard, the mouse buttons and the gamepads. Each
/// gamepad takes a player slot while it is connected; `G` is the handle
/// that keeps it open.
pub struct Input<G> {
    keys: ButtonState,
    mouse_buttons: ButtonState,
    gamepad_buttons: ButtonState,
    gamepads: Vec<Option<G>>,
    joystick_ids: HashMap<u32, usize>,
}

impl<G> Input<G> {
    pub closed spec fn keys_spec(&self) -> ButtonState {
        self.keys
    }

    pub closed spec fn mouse_spec(&self) -> ButtonState {
        self.mouse_buttons
    }

    pub closed spec fn pads_spec(&self) -> ButtonState {
        self.gamepad_buttons
    }

    /// The gamepad in each player slot.
    pub closed spec fn slots(&self) -> Seq<Option<G>> {
        self.gamepads@
    }

    /// The player slot of each connected joystick.
    pub closed spec fn players(&self) -> Map<u32, usize> {
        self.joystick_ids@
    }

    pub open spec fn wf(&self) -> bool {
        forall|j: u32| #[trigger] self.players().contains_key(j) ==> self.players()[j] < self.slots().len()
    }

    pub fn new() -> (r: Input<G>)
        ensures
            r.wf(),
            r.slots() == Seq::<Option<G>>::empty(),
            r.players() == Map::<u32, usize>::empty(),
            r.keys_spec().down_set() == Set::<u128>::empty(),
            r.mouse_spec().down_set() == Set::<u128>::empty(),
            r.pads_spec().down_set() == Set::<u128>::empty(),
    {
        Input {
            keys: ButtonState::new(),
            mouse_buttons: ButtonState::new(),
            gamepad_buttons: ButtonState::new(),
            gamepads: Vec::new(),
            joystick_ids: HashMap::new(),
        }
    }

    pub fn key_down(&mut self, key: Key)
        ensures
            final(self).keys_spec().down_set() == old(self).keys_spec().down_set().insert(
                key.code_spec() as u128,
            ),
            final(self).keys_spec().pressed_set() == if old(self).keys_spec().down_set().contains(
                key.code_spec() as u128,
            ) {
                old(self).keys_spec().pressed_set()
            } else {
                old(self).keys_spec().pressed_set().insert(key.code_spec() as u128)
            },
            final(self).keys_spec().released_set() == old(self).keys_spec().released_set(),
            final(self).slots() == old(self).slots(),
            final(self).players() == old(self).players(),
    {
        self.keys.set_down(key.code() as u128);
    }

    pub fn key_up(&mut self, key: Key)
        ensures
            final(self).keys_spec().down_set() == old(self).keys_spec().down_set().remove(
                key.code_spec() as u128,
            ),
            final(self).keys_spec().released_set() == if old(self).keys_spec().down_set().contains(
                key.code_spec() as u128,
            ) {
                old(self).keys_spec().released_set().insert(key.code_spec() as u128)
            } else {
                old(self).keys_spec().released_set()
            },
            final(self).keys_spec().pressed_set() == old(self).keys_spec().pressed_set(),
            final(self).slots() == old(self).slots(),
            final(self).players() == old(self).players(),
    {
        self.keys.set_up(key.code() as u128);
    }

    pub fn mouse_button_down(&mut self, button: MouseButton)
        ensures
            final(self).mouse_spec().down_set() == old(self).mouse_spec().down_set().insert(
                button.code_spec() as u128,
            ),
            final(self).slots() == old(self).slots(),
            final(self).players() == old(self).players(),
    {
        self.mouse_buttons.set_down(button.code() as u128);
    }

    pub fn mouse_button_up(&mut self, button: MouseButton)
        ensures
            final(self).mouse_spec().down_set() == old(self).mouse_spec().down_set().remove(
                button.code_spec() as u128,
            ),
            final(self).slots() == old(self).slots(),
            final(self).players() == old(self).players(),
    {
        self.mouse_buttons.set_up(button.code() as u128);
    }

    /// A gamepad was connected: it takes the first free player slot, or a
    /// new one, and its joystick maps to that slot.
    pub fn add_gamepad(&mut self, joystick: u32, gamepad: G) -> (slot: usize)
        requires
            old(self).wf(),
        ensures
            final(self).wf(),
            slot == free_slot(old(self).slots()),
            final(self).slots() == if slot < old(self).slots().len() {
                old(self).slots().update(slot as int, Some(gamepad))
            } else {
                old(self).slots().push(Some(gamepad))
            },
            final(self).players() == old(self).players().insert(joystick, slot),
    {
        let n = self.gamepads.len();
        let mut i: usize = 0;
        while i < n && self.gamepads[i].is_some()
            invariant
                n == self.gamepads@.len(),
                i <= n,
                self.slots() == old(self).slots(),
                self.players() == old(self).players(),
                forall|j: int| 0 <= j < i ==> #[trigger] self.gamepads@[j] is Some,
            decreases n - i,
        {
            i = i + 1;
        }
        if i < n {
            proof {
                let s = self.gamepads@;
                assert(is_first_free(s, i as int));
                let k = choose|k: int| is_first_free(s, k);
                if k < i {
                    assert(s[k] is Some);
                } else if i < k {
                    assert(s[i as int] is Some);
                }
            }
            self.gamepads.set(i, Some(gamepad));
        } else {
            self.gamepads.push(Some(gamepad));
        }
        self.joystick_ids.insert(joystick, i);
        assert forall|j: u32| #[trigger] self.players().contains_key(j) implies self.players()[j]
            < self.slots().len() by {
            if j != joystick {
                assert(old(self).players().contains_key(j));
            }
        }
        i
    }

    /// A gamepad was disconnected: its slot becomes free.
    pub fn remove_gamepad(&mut self, joystick: u32)
        requires
            old(self).wf(),
        ensures
            final(self).wf(),
            final(self).players() == old(self).players().remove(joystick),
            final(self).slots() == if old(self).players().contains_key(joystick) {
                old(self).slots().update(old(self).players()[joystick] as int, None)
            } else {
                old(self).slots()
            },
    {
        let removed = self.joystick_ids.remove(&joystick);
        if let Some(slot) = removed {
            assert(old(self).players().contains_key(joystick));
            assert(old(self).players()[joystick] == slot);
            self.gamepads.set(slot, None);
        }
        assert forall|j: u32| #[trigger] self.players().contains_key(j) implies self.players()[j]
            < self.slots().len() by {
            assert(old(self).players().contains_key(j));
        }
    }

    /// The player slot of a joystick, if it is connected.
    pub fn gamepad_slot(&self, joystick: u32) -> (r: Option<usize>)
        ensures
            r == if self.players().contains_key(joystick) {
                Some(self.players()[joystick])
            } else {
                None::<usize>
            },
    {
        match self.joystick_ids.get(&joystick) {
            Some(slot) => Some(*slot),
            None => None,
        }
    }

    /// A button went down on a joystick; ignored if it is not connected.
    pub fn gamepad_button_down(&mut self, joystick: u32, button: GamepadButton)
        ensures
            final(self).pads_spec().down_set() == if old(self).players().contains_key(joystick) {
                old(self).pads_spec().down_set().insert(
                    pad_code(old(self).players()[joystick], button.code_spec()),
                )
            } else {
                old(self).pads_spec().down_set()
            },
            final(self).slots() == old(self).slots(),
            final(self).players() == old(self).players(),
    {
        if let Some(slot) = self.gamepad_slot(joystick) {
            self.gamepad_buttons.set_down(pad_key(slot, button.code()));
        }
    }

    /// A button went up on a joystick; ignored if it is not connected.
    pub fn gamepad_button_up(&mut self, joystick: u32, button: GamepadButton)
        ensures
            final(self).pads_spec().down_set() == if old(self).players().contains_key(joystick) {
                old(self).pads_spec().down_set().remove(
                    pad_code(old(self).players()[joystick], button.code_spec()),
                )
            } else {
                old(self).pads_spec().down_set()
            },
            final(self).slots() == old(self).slots(),
            final(self).players() == old(self).players(),
    {
        if let Some(slot) = self.gamepad_slot(joystick) {
            self.gamepad_buttons.set_up(pad_key(slot, button.code()));
        }
    }

    /// Starts a new update: what went down or up is forgotten.
    pub fn clear(&mut self)
        ensures
            final(self).keys_spec().down_set() == old(self).keys_spec().down_set(),
            final(self).mouse_spec().down_set() == old(self).mouse_spec().down_set(),
            final(self).pads_spec().down_set() == old(self).pads_spec().down_set(),
            final(self).keys_spec().pressed_set() == Set::<u128>::empty(),
            final(self).keys_spec().released_set() == Set::<u128>::empty(),
            final(self).mouse_spec().pressed_set() == Set::<u128>::empty(),
            final(self).mouse_spec().released_set() == Set::<u128>::empty(),
            final(self).pads_spec().pressed_set() == Set::<u128>::empty(),
            final(self).pads_spec().released_set() == Set::<u128>::empty(),
            final(self).slots() == old(self).slots(),
            final(self).players() == old(self).players(),
    {
        self.keys.clear();
        self.mouse_buttons.clear();
        self.gamepad_buttons.clear();
    }

    pub fn is_key_down(&self, key: Key) -> (r: bool)
        ensures
            r == self.keys_spec().down_set().contains(key.code_spec() as u128),
    {
        self.keys.is_down(key.code() as u128)
    }

    pub fn is_key_up(&self, key: Key) -> (r: bool)
        ensures
            r == !self.keys_spec().down_set().contains(key.code_spec() as u128),
    {
        self.keys.is_up(key.code() as u128)
    }

    pub fn is_key_pressed(&self, key: Key) -> (r: bool)
        ensures
            r == self.keys_spec().pressed_set().contains(key.code_spec() as u128),
    {
        self.keys.is_pressed(key.code() as u128)
    }

    pub fn is_key_released(&self, key: Key) -> (r: bool)
        ensures
            r == self.keys_spec().released_set().contains(key.code_spec() as u128),
    {
        self.keys.is_released(key.code() as u128)
    }

    pub fn is_mouse_button_down(&self, button: MouseButton) -> (r: bool)
        ensures
            r == self.mouse_spec().down_set().contains(button.code_spec() as u128),
    {
        self.mouse_buttons.is_down(button.code() as u128)
    }

    pub fn is_mouse_button_up(&self, button: MouseButton) -> (r: bool)
        ensures
            r == !self.mouse_spec().down_set().contains(button.code_spec() as u128),
    {
        self.mouse_buttons.is_up(button.code() as u128)
    }

    pub fn is_mouse_button_pressed(&self, button: MouseButton) -> (r: bool)
        ensures
            r == self.mouse_spec().pressed_set().contains(button.code_spec() as u128),
    {
        self.mouse_buttons.is_pressed(button.code() as u128)
    }

    pub fn is_mouse_button_released(&self, button: MouseButton) -> (r: bool)
        ensures
            r == self.mouse_spec().released_set().contains(button.code_spec() as u128),
    {
        self.mouse_buttons.is_released(button.code() as u128)
    }

    pub fn is_gamepad_button_down(&self, player: usize, button: GamepadButton) -> (r: bool)
        ensures
            r == self.pads_spec().down_set().contains(pad_code(player, button.code_spec())),
    {
        self.gamepad_buttons.is_down(pad_key(player, button.code()))
    }

    pub fn is_gamepad_button_up(&self, player: usize, button: GamepadButton) -> (r: bool)
        ensures
            r == !self.pads_spec().down_set().contains(pad_code(player, button.code_spec())),
    {
        self.gamepad_buttons.is_up(pad_key(player, button.code()))
    }

    pub fn is_gamepad_button_pressed(&self, player: usize, button: GamepadButton) -> (r: bool)
        ensures
            r == self.pads_spec().pressed_set().contains(pad_code(player, button.code_spec())),
    {
        self.gamepad_buttons.is_pressed(pad_key(player, button.code()))
    }

    pub fn is_gamepad_button_released(&self, player: usize, button: GamepadButton) -> (r: bool)
        ensures
            r == self.pads_spec().released_set().contains(pad_code(player, button.code_spec())),
    {
        self.gamepad_buttons.is_released(pad_key(player, button.code()))
    }
}

} // verus!
