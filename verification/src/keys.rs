//! The kernel's numbers for keys and mouse buttons.

use vstd::prelude::*;

verus! {

/// A physical key, by where it is on the keyboard.
#[derive(Clone, Copy, Debug, PartialEq, Eq, Structural)]
pub enum KeyCode {
    KeyA,
    KeyB,
    KeyC,
    KeyD,
    KeyE,
    KeyF,
    KeyG,
    KeyH,
    KeyI,
    KeyJ,
    KeyK,
    KeyL,
    KeyM,
    KeyN,
    KeyO,
    KeyP,
    KeyQ,
    KeyR,
    KeyS,
    KeyT,
    KeyU,
    KeyV,
    KeyW,
    KeyX,
    KeyY,
    KeyZ,
    Digit1,
    Digit2,
    Digit3,
    Digit4,
    Digit5,
    Digit6,
    Digit7,
    Digit8,
    Digit9,
    Digit0,
    Enter,
    Escape,
    Backspace,
    Tab,
    Space,
    Minus,
    Equal,
    BracketLeft,
    BracketRight,
    Backslash,
    Semicolon,
    Quote,
    Backquote,
    Comma,
    Period,
    Slash,
    CapsLock,
    F1,
    F2,
    F3,
    F4,
    F5,
    F6,
    F7,
    F8,
    F9,
    F10,
    F11,
    F12,
    ShiftLeft,
    ControlLeft,
    AltLeft,
    ShiftRight,
    ControlRight,
    NumpadDivide,
    PrintScreen,
    AltRight,
    Home,
    ArrowUp,
    PageUp,
    ArrowLeft,
    ArrowRight,
    End,
    ArrowDown,
    PageDown,
    Insert,
    Delete,
    SuperLeft,
    SuperRight,
    /// A key that is not passed on.
    Other,
}

/// A mouse button.
#[derive(Clone, Copy, Debug, PartialEq, Eq, Structural)]
pub enum MouseButton {
    Left,
    Right,
    Middle,
    /// A button that is not passed on.
    Other,
}

/// The kernel's number for a key.
pub open spec fn evdev_key(code: KeyCode) -> Option<u32> {
    match code {
        KeyCode::KeyA => Some(30u32),
        KeyCode::KeyB => Some(48u32),
        KeyCode::KeyC => Some(46u32),
        KeyCode::KeyD => Some(32u32),
        KeyCode::KeyE => Some(18u32),
        KeyCode::KeyF => Some(33u32),
        KeyCode::KeyG => Some(34u32),
        KeyCode::KeyH => Some(35u32),
        KeyCode::KeyI => Some(23u32),
        KeyCode::KeyJ => Some(36u32),
        KeyCode::KeyK => Some(37u32),
        KeyCode::KeyL => Some(38u32),
        KeyCode::KeyM => Some(50u32),
        KeyCode::KeyN => Some(49u32),
        KeyCode::KeyO => Some(24u32),
        KeyCode::KeyP => Some(25u32),
        KeyCode::KeyQ => Some(16u32),
        KeyCode::KeyR => Some(19u32),
        KeyCode::KeyS => Some(31u32),
        KeyCode::KeyT => Some(20u32),
        KeyCode::KeyU => Some(22u32),
        KeyCode::KeyV => Some(47u32),
        KeyCode::KeyW => Some(17u32),
        KeyCode::KeyX => Some(45u32),
        KeyCode::KeyY => Some(21u32),
        KeyCode::KeyZ => Some(44u32),
        KeyCode::Digit1 => Some(2u32),
        KeyCode::Digit2 => Some(3u32),
        KeyCode::Digit3 => Some(4u32),
        KeyCode::Digit4 => Some(5u32),
        KeyCode::Digit5 => Some(6u32),
        KeyCode::Digit6 => Some(7u32),
        KeyCode::Digit7 => Some(8u32),
        KeyCode::Digit8 => Some(9u32),
        KeyCode::Digit9 => Some(10u32),
        KeyCode::Digit0 => Some(11u32),
        KeyCode::Enter => Some(28u32),
        KeyCode::Escape => Some(1u32),
        KeyCode::Backspace => Some(14u32),
        KeyCode::Tab => Some(15u32),
        KeyCode::Space => Some(57u32),
        KeyCode::Minus => Some(12u32),
        KeyCode::Equal => Some(13u32),
        KeyCode::BracketLeft => Some(26u32),
        KeyCode::BracketRight => Some(27u32),
        KeyCode::Backslash => Some(43u32),
        KeyCode::Semicolon => Some(39u32),
        KeyCode::Quote => Some(40u32),
        KeyCode::Backquote => Some(41u32),
        KeyCode::Comma => Some(51u32),
        KeyCode::Period => Some(52u32),
        KeyCode::Slash => Some(53u32),
        KeyCode::CapsLock => Some(58u32),
        KeyCode::F1 => Some(59u32),
        KeyCode::F2 => Some(60u32),
        KeyCode::F3 => Some(61u32),
        KeyCode::F4 => Some(62u32),
        KeyCode::F5 => Some(63u32),
        KeyCode::F6 => Some(64u32),
        KeyCode::F7 => Some(65u32),
        KeyCode::F8 => Some(66u32),
        KeyCode::F9 => Some(67u32),
        KeyCode::F10 => Some(68u32),
        KeyCode::F11 => Some(87u32),
        KeyCode::F12 => Some(88u32),
        KeyCode::ShiftLeft => Some(42u32),
        KeyCode::ControlLeft => Some(29u32),
        KeyCode::AltLeft => Some(56u32),
        KeyCode::ShiftRight => Some(54u32),
        KeyCode::ControlRight => Some(97u32),
        KeyCode::NumpadDivide => Some(98u32),
        KeyCode::PrintScreen => Some(99u32),
        KeyCode::AltRight => Some(100u32),
        KeyCode::Home => Some(102u32),
        KeyCode::ArrowUp => Some(103u32),
        KeyCode::PageUp => Some(104u32),
        KeyCode::ArrowLeft => Some(105u32),
        KeyCode::ArrowRight => Some(106u32),
        KeyCode::End => Some(107u32),
        KeyCode::ArrowDown => Some(108u32),
        KeyCode::PageDown => Some(109u32),
        KeyCode::Insert => Some(110u32),
        KeyCode::Delete => Some(111u32),
        KeyCode::SuperLeft => Some(125u32),
        KeyCode::SuperRight => Some(126u32),
        KeyCode::Other => None,
    }
}

/// The key that has a number.
pub open spec fn key_numbered(n: u32) -> KeyCode {
    match n {
        30 => KeyCode::KeyA,
        48 => KeyCode::KeyB,
        46 => KeyCode::KeyC,
        32 => KeyCode::KeyD,
        18 => KeyCode::KeyE,
        33 => KeyCode::KeyF,
        34 => KeyCode::KeyG,
        35 => KeyCode::KeyH,
        23 => KeyCode::KeyI,
        36 => KeyCode::KeyJ,
        37 => KeyCode::KeyK,
        38 => KeyCode::KeyL,
        50 => KeyCode::KeyM,
        49 => KeyCode::KeyN,
        24 => KeyCode::KeyO,
        25 => KeyCode::KeyP,
        16 => KeyCode::KeyQ,
        19 => KeyCode::KeyR,
        31 => KeyCode::KeyS,
        20 => KeyCode::KeyT,
        22 => KeyCode::KeyU,
        47 => KeyCode::KeyV,
        17 => KeyCode::KeyW,
        45 => KeyCode::KeyX,
        21 => KeyCode::KeyY,
        44 => KeyCode::KeyZ,
        2 => KeyCode::Digit1,
        3 => KeyCode::Digit2,
        4 => KeyCode::Digit3,
        5 => KeyCode::Digit4,
        6 => KeyCode::Digit5,
        7 => KeyCode::Digit6,
        8 => KeyCode::Digit7,
        9 => KeyCode::Digit8,
        10 => KeyCode::Digit9,
        11 => KeyCode::Digit0,
        28 => KeyCode::Enter,
        1 => KeyCode::Escape,
        14 => KeyCode::Backspace,
        15 => KeyCode::Tab,
        57 => KeyCode::Space,
        12 => KeyCode::Minus,
        13 => KeyCode::Equal,
        26 => KeyCode::BracketLeft,
        27 => KeyCode::BracketRight,
        43 => KeyCode::Backslash,
        39 => KeyCode::Semicolon,
        40 => KeyCode::Quote,
        41 => KeyCode::Backquote,
        51 => KeyCode::Comma,
        52 => KeyCode::Period,
        53 => KeyCode::Slash,
        58 => KeyCode::CapsLock,
        59 => KeyCode::F1,
        60 => KeyCode::F2,
        61 => KeyCode::F3,
        62 => KeyCode::F4,
        63 => KeyCode::F5,
        64 => KeyCode::F6,
        65 => KeyCode::F7,
        66 => KeyCode::F8,
        67 => KeyCode::F9,
        68 => KeyCode::F10,
        87 => KeyCode::F11,
        88 => KeyCode::F12,
        42 => KeyCode::ShiftLeft,
        29 => KeyCode::ControlLeft,
        56 => KeyCode::AltLeft,
        54 => KeyCode::ShiftRight,
        97 => KeyCode::ControlRight,
        98 => KeyCode::NumpadDivide,
        99 => KeyCode::PrintScreen,
        100 => KeyCode::AltRight,
        102 => KeyCode::Home,
        103 => KeyCode::ArrowUp,
        104 => KeyCode::PageUp,
        105 => KeyCode::ArrowLeft,
        106 => KeyCode::ArrowRight,
        107 => KeyCode::End,
        108 => KeyCode::ArrowDown,
        109 => KeyCode::PageDown,
        110 => KeyCode::Insert,
        111 => KeyCode::Delete,
        125 => KeyCode::SuperLeft,
        126 => KeyCode::SuperRight,
        _ => KeyCode::Other,
    }
}

/// The kernel's number for a key; none for one that is not passed on.
pub fn winit_key_to_evdev(code: KeyCode) -> (n: Option<u32>)
    ensures
        n == evdev_key(code),
{
    match code {
        KeyCode::KeyA => Some(30),
        KeyCode::KeyB => Some(48),
        KeyCode::KeyC => Some(46),
        KeyCode::KeyD => Some(32),
        KeyCode::KeyE => Some(18),
        KeyCode::KeyF => Some(33),
        KeyCode::KeyG => Some(34),
        KeyCode::KeyH => Some(35),
        KeyCode::KeyI => Some(23),
        KeyCode::KeyJ => Some(36),
        KeyCode::KeyK => Some(37),
        KeyCode::KeyL => Some(38),
        KeyCode::KeyM => Some(50),
        KeyCode::KeyN => Some(49),
        KeyCode::KeyO => Some(24),
        KeyCode::KeyP => Some(25),
        KeyCode::KeyQ => Some(16),
        KeyCode::KeyR => Some(19),
        KeyCode::KeyS => Some(31),
        KeyCode::KeyT => Some(20),
        KeyCode::KeyU => Some(22),
        KeyCode::KeyV => Some(47),
        KeyCode::KeyW => Some(17),
        KeyCode::KeyX => Some(45),
        KeyCode::KeyY => Some(21),
        KeyCode::KeyZ => Some(44),
        KeyCode::Digit1 => Some(2),
        KeyCode::Digit2 => Some(3),
        KeyCode::Digit3 => Some(4),
        KeyCode::Digit4 => Some(5),
        KeyCode::Digit5 => Some(6),
        KeyCode::Digit6 => Some(7),
        KeyCode::Digit7 => Some(8),
        KeyCode::Digit8 => Some(9),
        KeyCode::Digit9 => Some(10),
        KeyCode::Digit0 => Some(11),
        KeyCode::Enter => Some(28),
        KeyCode::Escape => Some(1),
        KeyCode::Backspace => Some(14),
        KeyCode::Tab => Some(15),
        KeyCode::Space => Some(57),
        KeyCode::Minus => Some(12),
        KeyCode::Equal => Some(13),
        KeyCode::BracketLeft => Some(26),
        KeyCode::BracketRight => Some(27),
        KeyCode::Backslash => Some(43),
        KeyCode::Semicolon => Some(39),
        KeyCode::Quote => Some(40),
        KeyCode::Backquote => Some(41),
        KeyCode::Comma => Some(51),
        KeyCode::Period => Some(52),
        KeyCode::Slash => Some(53),
        KeyCode::CapsLock => Some(58),
        KeyCode::F1 => Some(59),
        KeyCode::F2 => Some(60),
        KeyCode::F3 => Some(61),
        KeyCode::F4 => Some(62),
        KeyCode::F5 => Some(63),
        KeyCode::F6 => Some(64),
        KeyCode::F7 => Some(65),
        KeyCode::F8 => Some(66),
        KeyCode::F9 => Some(67),
        KeyCode::F10 => Some(68),
        KeyCode::F11 => Some(87),
        KeyCode::F12 => Some(88),
        KeyCode::ShiftLeft => Some(42),
        KeyCode::ControlLeft => Some(29),
        KeyCode::AltLeft => Some(56),
        KeyCode::ShiftRight => Some(54),
        KeyCode::ControlRight => Some(97),
        KeyCode::NumpadDivide => Some(98),
        KeyCode::PrintScreen => Some(99),
        KeyCode::AltRight => Some(100),
        KeyCode::Home => Some(102),
        KeyCode::ArrowUp => Some(103),
        KeyCode::PageUp => Some(104),
        KeyCode::ArrowLeft => Some(105),
        KeyCode::ArrowRight => Some(106),
        KeyCode::End => Some(107),
        KeyCode::ArrowDown => Some(108),
        KeyCode::PageDown => Some(109),
        KeyCode::Insert => Some(110),
        KeyCode::Delete => Some(111),
        KeyCode::SuperLeft => Some(125),
        KeyCode::SuperRight => Some(126),
        KeyCode::Other => None,
    }
}

/// A key that is passed on can be told from its number, so no two keys share
/// one.
pub proof fn law_key_numbers_are_distinct(code: KeyCode)
    ensures
        evdev_key(code) matches Some(n) ==> key_numbered(n) == code,
        evdev_key(code) is None <==> code == KeyCode::Other,
{
}

/// The kernel's number for a mouse button; none for one that is not passed on.
pub fn winit_button_to_evdev(btn: MouseButton) -> (n: Option<u32>)
    ensures
        n == match btn {
            MouseButton::Left => Some(272u32),
            MouseButton::Right => Some(273u32),
            MouseButton::Middle => Some(274u32),
            MouseButton::Other => None,
        },
{
    match btn {
        MouseButton::Left => Some(272),
        MouseButton::Right => Some(273),
        MouseButton::Middle => Some(274),
        MouseButton::Other => None,
    }
}

/// The rows of a keyboard are numbered from left to right, one row behind the other:
/// the digits, then each row of letters from where it starts to where it ends, the
/// function keys, the arrows and what stands around them. Escape has the first
/// number.
pub proof fn law_rows_are_numbered_from_left_to_right()
    ensures
        evdev_key(KeyCode::Escape) == Some(1u32),
        evdev_key(KeyCode::Digit1) == Some(2u32),
        evdev_key(KeyCode::AltLeft) == Some(56u32),
        evdev_key(KeyCode::F11) == Some(87u32),
        evdev_key(KeyCode::ControlRight) == Some(97u32),
        evdev_key(KeyCode::Home) == Some(102u32),
        evdev_key(KeyCode::SuperLeft) == Some(125u32),
        evdev_key(KeyCode::Digit2) == Some((evdev_key(KeyCode::Digit1)->Some_0 + 1) as u32),
        evdev_key(KeyCode::Digit3) == Some((evdev_key(KeyCode::Digit2)->Some_0 + 1) as u32),
        evdev_key(KeyCode::Digit4) == Some((evdev_key(KeyCode::Digit3)->Some_0 + 1) as u32),
        evdev_key(KeyCode::Digit5) == Some((evdev_key(KeyCode::Digit4)->Some_0 + 1) as u32),
        evdev_key(KeyCode::Digit6) == Some((evdev_key(KeyCode::Digit5)->Some_0 + 1) as u32),
        evdev_key(KeyCode::Digit7) == Some((evdev_key(KeyCode::Digit6)->Some_0 + 1) as u32),
        evdev_key(KeyCode::Digit8) == Some((evdev_key(KeyCode::Digit7)->Some_0 + 1) as u32),
        evdev_key(KeyCode::Digit9) == Some((evdev_key(KeyCode::Digit8)->Some_0 + 1) as u32),
        evdev_key(KeyCode::Digit0) == Some((evdev_key(KeyCode::Digit9)->Some_0 + 1) as u32),
        evdev_key(KeyCode::Minus) == Some((evdev_key(KeyCode::Digit0)->Some_0 + 1) as u32),
        evdev_key(KeyCode::Equal) == Some((evdev_key(KeyCode::Minus)->Some_0 + 1) as u32),
        evdev_key(KeyCode::Backspace) == Some((evdev_key(KeyCode::Equal)->Some_0 + 1) as u32),
        evdev_key(KeyCode::Tab) == Some((evdev_key(KeyCode::Backspace)->Some_0 + 1) as u32),
        evdev_key(KeyCode::KeyQ) == Some((evdev_key(KeyCode::Tab)->Some_0 + 1) as u32),
        evdev_key(KeyCode::KeyW) == Some((evdev_key(KeyCode::KeyQ)->Some_0 + 1) as u32),
        evdev_key(KeyCode::KeyE) == Some((evdev_key(KeyCode::KeyW)->Some_0 + 1) as u32),
        evdev_key(KeyCode::KeyR) == Some((evdev_key(KeyCode::KeyE)->Some_0 + 1) as u32),
        evdev_key(KeyCode::KeyT) == Some((evdev_key(KeyCode::KeyR)->Some_0 + 1) as u32),
        evdev_key(KeyCode::KeyY) == Some((evdev_key(KeyCode::KeyT)->Some_0 + 1) as u32),
        evdev_key(KeyCode::KeyU) == Some((evdev_key(KeyCode::KeyY)->Some_0 + 1) as u32),
        evdev_key(KeyCode::KeyI) == Some((evdev_key(KeyCode::KeyU)->Some_0 + 1) as u32),
        evdev_key(KeyCode::KeyO) == Some((evdev_key(KeyCode::KeyI)->Some_0 + 1) as u32),
        evdev_key(KeyCode::KeyP) == Some((evdev_key(KeyCode::KeyO)->Some_0 + 1) as u32),
        evdev_key(KeyCode::BracketLeft) == Some((evdev_key(KeyCode::KeyP)->Some_0 + 1) as u32),
        evdev_key(KeyCode::BracketRight) == Some((evdev_key(KeyCode::BracketLeft)->Some_0 + 1) as u32),
        evdev_key(KeyCode::Enter) == Some((evdev_key(KeyCode::BracketRight)->Some_0 + 1) as u32),
        evdev_key(KeyCode::ControlLeft) == Some((evdev_key(KeyCode::Enter)->Some_0 + 1) as u32),
        evdev_key(KeyCode::KeyA) == Some((evdev_key(KeyCode::ControlLeft)->Some_0 + 1) as u32),
        evdev_key(KeyCode::KeyS) == Some((evdev_key(KeyCode::KeyA)->Some_0 + 1) as u32),
        evdev_key(KeyCode::KeyD) == Some((evdev_key(KeyCode::KeyS)->Some_0 + 1) as u32),
        evdev_key(KeyCode::KeyF) == Some((evdev_key(KeyCode::KeyD)->Some_0 + 1) as u32),
        evdev_key(KeyCode::KeyG) == Some((evdev_key(KeyCode::KeyF)->Some_0 + 1) as u32),
        evdev_key(KeyCode::KeyH) == Some((evdev_key(KeyCode::KeyG)->Some_0 + 1) as u32),
        evdev_key(KeyCode::KeyJ) == Some((evdev_key(KeyCode::KeyH)->Some_0 + 1) as u32),
        evdev_key(KeyCode::KeyK) == Some((evdev_key(KeyCode::KeyJ)->Some_0 + 1) as u32),
        evdev_key(KeyCode::KeyL) == Some((evdev_key(KeyCode::KeyK)->Some_0 + 1) as u32),
        evdev_key(KeyCode::Semicolon) == Some((evdev_key(KeyCode::KeyL)->Some_0 + 1) as u32),
        evdev_key(KeyCode::Quote) == Some((evdev_key(KeyCode::Semicolon)->Some_0 + 1) as u32),
        evdev_key(KeyCode::Backquote) == Some((evdev_key(KeyCode::Quote)->Some_0 + 1) as u32),
        evdev_key(KeyCode::ShiftLeft) == Some((evdev_key(KeyCode::Backquote)->Some_0 + 1) as u32),
        evdev_key(KeyCode::Backslash) == Some((evdev_key(KeyCode::ShiftLeft)->Some_0 + 1) as u32),
        evdev_key(KeyCode::KeyZ) == Some((evdev_key(KeyCode::Backslash)->Some_0 + 1) as u32),
        evdev_key(KeyCode::KeyX) == Some((evdev_key(KeyCode::KeyZ)->Some_0 + 1) as u32),
        evdev_key(KeyCode::KeyC) == Some((evdev_key(KeyCode::KeyX)->Some_0 + 1) as u32),
        evdev_key(KeyCode::KeyV) == Some((evdev_key(KeyCode::KeyC)->Some_0 + 1) as u32),
        evdev_key(KeyCode::KeyB) == Some((evdev_key(KeyCode::KeyV)->Some_0 + 1) as u32),
        evdev_key(KeyCode::KeyN) == Some((evdev_key(KeyCode::KeyB)->Some_0 + 1) as u32),
        evdev_key(KeyCode::KeyM) == Some((evdev_key(KeyCode::KeyN)->Some_0 + 1) as u32),
        evdev_key(KeyCode::Comma) == Some((evdev_key(KeyCode::KeyM)->Some_0 + 1) as u32),
        evdev_key(KeyCode::Period) == Some((evdev_key(KeyCode::Comma)->Some_0 + 1) as u32),
        evdev_key(KeyCode::Slash) == Some((evdev_key(KeyCode::Period)->Some_0 + 1) as u32),
        evdev_key(KeyCode::ShiftRight) == Some((evdev_key(KeyCode::Slash)->Some_0 + 1) as u32),
        evdev_key(KeyCode::Space) == Some((evdev_key(KeyCode::AltLeft)->Some_0 + 1) as u32),
        evdev_key(KeyCode::CapsLock) == Some((evdev_key(KeyCode::Space)->Some_0 + 1) as u32),
        evdev_key(KeyCode::F1) == Some((evdev_key(KeyCode::CapsLock)->Some_0 + 1) as u32),
        evdev_key(KeyCode::F2) == Some((evdev_key(KeyCode::F1)->Some_0 + 1) as u32),
        evdev_key(KeyCode::F3) == Some((evdev_key(KeyCode::F2)->Some_0 + 1) as u32),
        evdev_key(KeyCode::F4) == Some((evdev_key(KeyCode::F3)->Some_0 + 1) as u32),
        evdev_key(KeyCode::F5) == Some((evdev_key(KeyCode::F4)->Some_0 + 1) as u32),
        evdev_key(KeyCode::F6) == Some((evdev_key(KeyCode::F5)->Some_0 + 1) as u32),
        evdev_key(KeyCode::F7) == Some((evdev_key(KeyCode::F6)->Some_0 + 1) as u32),
        evdev_key(KeyCode::F8) == Some((evdev_key(KeyCode::F7)->Some_0 + 1) as u32),
        evdev_key(KeyCode::F9) == Some((evdev_key(KeyCode::F8)->Some_0 + 1) as u32),
        evdev_key(KeyCode::F10) == Some((evdev_key(KeyCode::F9)->Some_0 + 1) as u32),
        evdev_key(KeyCode::F12) == Some((evdev_key(KeyCode::F11)->Some_0 + 1) as u32),
        evdev_key(KeyCode::NumpadDivide) == Some((evdev_key(KeyCode::ControlRight)->Some_0 + 1) as u32),
        evdev_key(KeyCode::PrintScreen) == Some((evdev_key(KeyCode::NumpadDivide)->Some_0 + 1) as u32),
        evdev_key(KeyCode::AltRight) == Some((evdev_key(KeyCode::PrintScreen)->Some_0 + 1) as u32),
        evdev_key(KeyCode::ArrowUp) == Some((evdev_key(KeyCode::Home)->Some_0 + 1) as u32),
        evdev_key(KeyCode::PageUp) == Some((evdev_key(KeyCode::ArrowUp)->Some_0 + 1) as u32),
        evdev_key(KeyCode::ArrowLeft) == Some((evdev_key(KeyCode::PageUp)->Some_0 + 1) as u32),
        evdev_key(KeyCode::ArrowRight) == Some((evdev_key(KeyCode::ArrowLeft)->Some_0 + 1) as u32),
        evdev_key(KeyCode::End) == Some((evdev_key(KeyCode::ArrowRight)->Some_0 + 1) as u32),
        evdev_key(KeyCode::ArrowDown) == Some((evdev_key(KeyCode::End)->Some_0 + 1) as u32),
        evdev_key(KeyCode::PageDown) == Some((evdev_key(KeyCode::ArrowDown)->Some_0 + 1) as u32),
        evdev_key(KeyCode::Insert) == Some((evdev_key(KeyCode::PageDown)->Some_0 + 1) as u32),
        evdev_key(KeyCode::Delete) == Some((evdev_key(KeyCode::Insert)->Some_0 + 1) as u32),
        evdev_key(KeyCode::SuperRight) == Some((evdev_key(KeyCode::SuperLeft)->Some_0 + 1) as u32),
{
}

} // verus!
