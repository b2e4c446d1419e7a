//! The input relay: what the wrapped window procedure does with each message.
//!
//! The caller reads the key states and the clock, hands them in with the
//! message, and carries out what comes back: send the pointer packet, change the
//! focus, run the bound action, and either pass the message on to the previous
//! window procedure or return the given result at once.

use vstd::prelude::*;
use crate::keybinds::{Action, KeyBind, KeyBinds, key_down};
use crate::ui::frame::FrameBuffer;
use crate::ui::mmf::{u32_le_bytes, write_u32_le};

verus! {

/// Message: the window is being activated or deactivated.
pub const WM_ACTIVATE: u32 = 0x0006;

/// Message: the window has gained the keyboard focus.
pub const WM_SETFOCUS: u32 = 0x0007;

/// Message: the window is about to lose the keyboard focus.
pub const WM_KILLFOCUS: u32 = 0x0008;

/// Message: a window of another application is being activated, or one of this.
pub const WM_ACTIVATEAPP: u32 = 0x001C;

/// Message: a key was pressed.
pub const WM_KEYDOWN: u32 = 0x0100;

/// Message: a key was released.
pub const WM_KEYUP: u32 = 0x0101;

/// Message: a key was pressed while Alt was held.
pub const WM_SYSKEYDOWN: u32 = 0x0104;

/// Message: a key was released while Alt was held.
pub const WM_SYSKEYUP: u32 = 0x0105;

/// Message: the pointer moved.
pub const WM_MOUSEMOVE: u32 = 0x0200;

/// Virtual key code of the Alt key.
pub const VK_MENU: usize = 0x12;

/// Virtual key code of the Num Lock key.
pub const VK_NUMLOCK: usize = 0x90;

/// Kind of a pointer packet: the pointer moved.
pub const POINTER_MOVE: u8 = 2;

/// A Num Lock message this soon after an Alt message is not a real key press.
pub const ALT_GUARD_MILLIS: u64 = 100;

/// What the relay returns for a pointer message that it swallows.
pub const SWALLOWED: isize = 1;

/// Where pointer packets are sent.
pub const UDPADDR: &'static str = "127.0.0.1:49152";

/// The x coordinate in a pointer message: the low 16 bits, read as a signed number.
pub open spec fn x_of(lparam: isize) -> int {
    let low = lparam as int % 0x1_0000;
    if low >= 0x8000 {
        low - 0x1_0000
    } else {
        low
    }
}

/// The y coordinate in a pointer message: bits 16 to 31, read as a signed number.
pub open spec fn y_of(lparam: isize) -> int {
    let high = lparam as int / 0x1_0000 % 0x1_0000;
    if high >= 0x8000 {
        high - 0x1_0000
    } else {
        high
    }
}

/// Reads the x coordinate from a pointer message.
pub fn get_x_lparam(lparam: isize) -> (x: i32)
    ensures
        x == x_of(lparam),
{
    let lifted: u128 = (lparam as i128 + 0x1_0000_0000_0000_0000) as u128;
    let low: i32 = (lifted % 0x1_0000) as i32;
    if low >= 0x8000 {
        low - 0x1_0000
    } else {
        low
    }
}

/// Reads the y coordinate from a pointer message.
pub fn get_y_lparam(lparam: isize) -> (y: i32)
    ensures
        y == y_of(lparam),
{
    let lifted: u128 = (lparam as i128 + 0x1_0000_0000_0000_0000) as u128;
    let high: i32 = (lifted / 0x1_0000 % 0x1_0000) as i32;
    if high >= 0x8000 {
        high - 0x1_0000
    } else {
        high
    }
}

/// The packet that tells the producer about a pointer event.
#[derive(Clone, Copy, Debug, PartialEq, Eq, Structural)]
pub struct MouseInputPacket {
    pub id: u8,
    pub x: i32,
    pub y: i32,
}

/// The four bytes that store a signed value little-endian, in two's complement.
pub open spec fn i32_le_bytes(value: i32) -> Seq<u8> {
    u32_le_bytes((value as int % 0x1_0000_0000) as u32)
}

fn write_i32_le(value: i32) -> (bytes: [u8; 4])
    ensures
        bytes@ == i32_le_bytes(value),
{
    let lifted: u32 = if value >= 0 {
        value as u32
    } else {
        (value as i64 + 0x1_0000_0000) as u32
    };
    write_u32_le(lifted)
}

impl MouseInputPacket {
    /// The packet as it goes over the wire: the kind, then x, then y, nine bytes.
    pub open spec fn wire(&self) -> Seq<u8> {
        seq![self.id] + i32_le_bytes(self.x) + i32_le_bytes(self.y)
    }

    /// Encodes the packet for sending.
    pub fn encode(&self) -> (bytes: [u8; 9])
        ensures
            bytes@ == self.wire(),
    {
        let x = write_i32_le(self.x);
        let y = write_i32_le(self.y);
        let bytes = [self.id, x[0], x[1], x[2], x[3], y[0], y[1], y[2], y[3]];
        assert(bytes@ =~= self.wire());
        bytes
    }
}

/// The key states that the caller reads before it hands in a key message.
#[derive(Clone, Copy, Debug, PartialEq, Eq, Structural)]
pub struct KeyStates {
    pub numlock: i16,
    pub control: i16,
    pub menu: i16,
    pub shift: i16,
}

/// What the relay remembers between messages.
#[derive(Clone, Copy, Debug, PartialEq, Eq, Structural)]
pub struct InputRelay {
    /// The Num Lock toggle state last seen: 0 or 1, and 99 before the first look.
    pub numlock_state: u8,
    /// When the last Alt message came, on the caller's clock in milliseconds.
    pub last_alt_up: Option<u64>,
}

/// What is done about the input focus.
#[derive(Clone, Copy, Debug, PartialEq, Eq, Structural)]
pub enum FocusChange {
    Keep,
    /// Bring the host window to the foreground, focus it, capture the pointer.
    Grab,
    /// Release the pointer capture.
    Release,
}

/// What the caller has to do with a message.
#[derive(Clone, Copy, Debug, PartialEq, Eq, Structural)]
pub struct RelayOutcome {
    /// Pass the message on to the previous window procedure and return its result.
    pub forward: bool,
    /// The result to return where the message is not passed on.
    pub result: isize,
    /// The packet to send to the producer, if any.
    pub packet: Option<MouseInputPacket>,
    pub focus: FocusChange,
    /// The bound action to run, if the message pressed a bound chord.
    pub action: Option<Action>,
}

/// The toggle bit of a key state.
pub open spec fn toggle_bit(state: i16) -> u8 {
    (state as int % 2) as u8
}

/// Time that passed since `then`; zero if the clock went backwards.
pub open spec fn elapsed(now: u64, then: u64) -> int {
    if now >= then {
        now - then
    } else {
        0
    }
}

/// Whether a Num Lock message counts as a real key press, and the toggle state
/// to remember. It does not count within `ALT_GUARD_MILLIS` of an Alt message,
/// nor when the toggle state is the one remembered.
pub open spec fn numlock_sync(relay: InputRelay, now: u64, numlock: i16) -> (InputRelay, bool) {
    if relay.last_alt_up is Some && elapsed(now, relay.last_alt_up->Some_0) < ALT_GUARD_MILLIS {
        (relay, false)
    } else if toggle_bit(numlock) != relay.numlock_state {
        (InputRelay { numlock_state: toggle_bit(numlock), ..relay }, true)
    } else {
        (relay, false)
    }
}

/// The outcome that passes a message on and does nothing else.
pub open spec fn passed_on() -> RelayOutcome {
    RelayOutcome { forward: true, result: 0, packet: None, focus: FocusChange::Keep, action: None }
}

/// The outcome that swallows a key message.
pub open spec fn key_swallowed(action: Option<Action>) -> RelayOutcome {
    RelayOutcome { forward: false, result: 0, packet: None, focus: FocusChange::Keep, action }
}

/// The chord that a key message presses, given the key states.
pub open spec fn pressed_chord(wparam: usize, keys: KeyStates) -> KeyBind {
    KeyBind {
        key: (wparam as int % 0x1_0000_0000) as u32,
        ctrl: key_down(keys.control),
        alt: key_down(keys.menu),
        shift: key_down(keys.shift),
    }
}

/// The action bound to a chord, if any.
pub open spec fn bound_action(table: Map<KeyBind, Action>, chord: KeyBind) -> Option<Action> {
    if table.contains_key(chord) {
        Some(table[chord])
    } else {
        None
    }
}

/// The relay after a message, and what the caller has to do with the message.
/// `opaque` tells whether the pointer is on an opaque pixel of the overlay,
/// `table` holds the key bindings.
pub open spec fn relayed(
    relay: InputRelay,
    msg: u32,
    wparam: usize,
    lparam: isize,
    keys: KeyStates,
    now: u64,
    opaque: bool,
    table: Map<KeyBind, Action>,
) -> (InputRelay, RelayOutcome) {
    if msg == WM_MOUSEMOVE {
        let packet = Some(
            MouseInputPacket { id: POINTER_MOVE, x: x_of(lparam) as i32, y: y_of(lparam) as i32 },
        );
        if opaque {
            (
                relay,
                RelayOutcome {
                    forward: false,
                    result: SWALLOWED,
                    packet,
                    focus: FocusChange::Keep,
                    action: None,
                },
            )
        } else {
            (relay, RelayOutcome { packet, ..passed_on() })
        }
    } else if msg == WM_SYSKEYUP || msg == WM_SYSKEYDOWN {
        if wparam == VK_NUMLOCK {
            (relay, key_swallowed(None))
        } else {
            (relay, passed_on())
        }
    } else if msg == WM_KEYDOWN || msg == WM_KEYUP {
        let noted = if wparam as int % 0x1_0000 == VK_MENU {
            InputRelay { last_alt_up: Some(now), ..relay }
        } else {
            relay
        };
        let (synced, counts) = if wparam == VK_NUMLOCK {
            numlock_sync(noted, now, keys.numlock)
        } else {
            (noted, true)
        };
        let action = bound_action(table, pressed_chord(wparam, keys));
        if !counts {
            (synced, key_swallowed(None))
        } else if msg == WM_KEYDOWN && action is Some {
            (synced, key_swallowed(action))
        } else {
            (synced, passed_on())
        }
    } else if msg == WM_SETFOCUS {
        (relay, RelayOutcome { focus: FocusChange::Grab, ..passed_on() })
    } else if msg == WM_KILLFOCUS {
        (relay, RelayOutcome { focus: FocusChange::Release, ..passed_on() })
    } else if msg == WM_ACTIVATEAPP || msg == WM_ACTIVATE {
        if wparam != 0 {
            (relay, RelayOutcome { focus: FocusChange::Grab, ..passed_on() })
        } else {
            (relay, RelayOutcome { focus: FocusChange::Release, ..passed_on() })
        }
    } else {
        (relay, passed_on())
    }
}

impl InputRelay {
    /// The relay before the first message.
    pub fn new() -> (relay: InputRelay)
        ensures
            relay == (InputRelay { numlock_state: 99, last_alt_up: None }),
    {
        InputRelay { numlock_state: 99, last_alt_up: None }
    }
}

/// Brings the remembered Num Lock state in line with the key state just read.
/// Returns true if the Num Lock message should count, false if it is to be swallowed.
pub fn synchronize_numlock(relay: &mut InputRelay, now_millis: u64, numlock: i16) -> (counts: bool)
    ensures
        (*final(relay), counts) == numlock_sync(*old(relay), now_millis, numlock),
{
    match relay.last_alt_up {
        Some(then) => {
            let passed: u64 = if now_millis >= then {
                now_millis - then
            } else {
                0
            };
            if passed < ALT_GUARD_MILLIS {
                return false;
            }
        },
        None => {},
    }
    let bit: u8 = ((numlock as i32 + 0x8000) % 2) as u8;
    if bit != relay.numlock_state {
        relay.numlock_state = bit;
        true
    } else {
        false
    }
}

/// Decides what happens with one window message.
pub fn wnd_proc(
    relay: &mut InputRelay,
    msg: u32,
    wparam: usize,
    lparam: isize,
    keys: &KeyStates,
    now_millis: u64,
    frame: &FrameBuffer,
    keybinds: &KeyBinds,
) -> (outcome: RelayOutcome)
    ensures
        (*final(relay), outcome) == relayed(
            *old(relay),
            msg,
            wparam,
            lparam,
            *keys,
            now_millis,
            frame.opaque_at(x_of(lparam), y_of(lparam)),
            keybinds@,
        ),
{
    let pass = RelayOutcome {
        forward: true,
        result: 0,
        packet: None,
        focus: FocusChange::Keep,
        action: None,
    };
    let swallow = RelayOutcome {
        forward: false,
        result: 0,
        packet: None,
        focus: FocusChange::Keep,
        action: None,
    };
    if msg == WM_MOUSEMOVE {
        let x = get_x_lparam(lparam);
        let y = get_y_lparam(lparam);
        let packet = Some(MouseInputPacket { id: POINTER_MOVE, x, y });
        if frame.is_overlay_pixel(x, y) {
            RelayOutcome {
                forward: false,
                result: SWALLOWED,
                packet,
                focus: FocusChange::Keep,
                action: None,
            }
        } else {
            RelayOutcome { packet, ..pass }
        }
    } else if msg == WM_SYSKEYUP || msg == WM_SYSKEYDOWN {
        if wparam == VK_NUMLOCK {
            swallow
        } else {
            pass
        }
    } else if msg == WM_KEYDOWN || msg == WM_KEYUP {
        if wparam as u64 % 0x1_0000 == VK_MENU as u64 {
            relay.last_alt_up = Some(now_millis);
        }
        if wparam == VK_NUMLOCK {
            if !synchronize_numlock(relay, now_millis, keys.numlock) {
                return swallow;
            }
        }
        if msg == WM_KEYDOWN {
            let chord = KeyBind {
                key: (wparam as u64 % 0x1_0000_0000) as u32,
                ctrl: keys.control < 0,
                alt: keys.menu < 0,
                shift: keys.shift < 0,
            };
            match keybinds.get(&chord) {
                Some(action) => {
                    return RelayOutcome { action: Some(action), ..swallow };
                },
                None => {},
            }
        }
        pass
    } else if msg == WM_SETFOCUS {
        RelayOutcome { focus: FocusChange::Grab, ..pass }
    } else if msg == WM_KILLFOCUS {
        RelayOutcome { focus: FocusChange::Release, ..pass }
    } else if msg == WM_ACTIVATEAPP || msg == WM_ACTIVATE {
        if wparam != 0 {
            RelayOutcome { focus: FocusChange::Grab, ..pass }
        } else {
            RelayOutcome { focus: FocusChange::Release, ..pass }
        }
    } else {
        pass
    }
}

/// A pointer move over an opaque pixel of the overlay is swallowed: it is not
/// passed on and the result returned for it is not zero. Over a pixel that is
/// not opaque it is passed on. Either way the producer is told of the move.
/// Every message that is no pointer move and no key message is passed on,
/// whatever lies under the pointer: button releases among them.
pub proof fn lemma_pointer_swallow(
    relay: InputRelay,
    msg: u32,
    wparam: usize,
    lparam: isize,
    keys: KeyStates,
    now: u64,
    opaque: bool,
    table: Map<KeyBind, Action>,
)
    ensures
        ({
            let outcome = relayed(relay, msg, wparam, lparam, keys, now, opaque, table).1;
            &&& msg == WM_MOUSEMOVE ==> outcome.forward == !opaque
            &&& msg == WM_MOUSEMOVE && opaque ==> outcome.result != 0
            &&& msg == WM_MOUSEMOVE ==> outcome.packet == Some(
                MouseInputPacket {
                    id: POINTER_MOVE,
                    x: x_of(lparam) as i32,
                    y: y_of(lparam) as i32,
                },
            )
            &&& msg != WM_MOUSEMOVE && msg != WM_KEYDOWN && msg != WM_KEYUP && msg != WM_SYSKEYDOWN
                && msg != WM_SYSKEYUP ==> outcome.forward
            &&& msg != WM_MOUSEMOVE ==> outcome == relayed(
                relay,
                msg,
                wparam,
                lparam,
                keys,
                now,
                !opaque,
                table,
            ).1
        }),
{
}

} // verus!
