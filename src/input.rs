//! Input handling: modifiers, key names, bindings, and the command language.
use vstd::prelude::*;
use vstd::string::StringExecFns;

use crate::config::BindingConfig;
use crate::text::{
    lower_of, lowercase, parse_i32, parse_u32, spec_parse_i32, spec_parse_u32, split_first_space, split_on,
    split_once_space, split_str, str_eq,
    trim, trim_seq, words, words_of,
};

verus! {

/// Input handling errors.
#[derive(Debug, Clone)]
pub enum InputError {
    Key(String),
    Modifier(String),
    Binding(String),
}

/// Keyboard modifiers, as a bitmask.
#[derive(Debug, Clone, Copy, PartialEq, Eq, Hash, Structural)]
pub struct Modifiers {
    pub bits: u8,
}

impl Modifiers {
    pub const SHIFT: u8 = 0x1;
    pub const CTRL: u8 = 0x2;
    pub const ALT: u8 = 0x4;
    pub const SUPER: u8 = 0x8;
    pub const CAPS_LOCK: u8 = 0x10;
    pub const NUM_LOCK: u8 = 0x20;

    pub open spec fn has(self, m: u8) -> bool {
        self.bits & m == m
    }

    pub fn empty() -> (r: Self)
        ensures
            r.bits == 0,
    {
        Modifiers { bits: 0 }
    }

    pub fn contains(&self, m: u8) -> (r: bool)
        ensures
            r == self.has(m),
    {
        self.bits & m == m
    }

    pub fn insert(&mut self, m: u8)
        ensures
            final(self).bits == old(self).bits | m,
    {
        self.bits = self.bits | m;
    }

    /// Parse modifiers from a string like "Mod4+Shift"; unknown parts are ignored.
    pub fn from_str_list(s: &str) -> (r: Self)
        ensures
            r.bits == modifier_bits(lowered_parts(split_on(s@, '+'))),
    {
        let parts = split_str(s, '+');
        let mut mods = Modifiers::empty();
        let mut i: usize = 0;
        while i < parts.len()
            invariant
                i <= parts@.len(),
                parts@.len() == split_on(s@, '+').len(),
                forall|k: int| 0 <= k < parts@.len() ==> #[trigger] parts@[k]@ == split_on(s@, '+')[k],
                mods.bits == modifier_bits(lowered_parts(split_on(s@, '+')).subrange(0, i as int)),
            decreases parts@.len() - i,
        {
            let part = lowercase(trim(parts[i].as_str()));
            let ghost all = lowered_parts(split_on(s@, '+'));
            assert(all.subrange(0, i + 1).drop_last() =~= all.subrange(0, i as int));
            mods.bits = mods.bits | modifier_bit(part.as_str());
            i = i + 1;
        }
        assert(lowered_parts(split_on(s@, '+')).subrange(0, i as int) =~= lowered_parts(split_on(s@, '+')));
        mods
    }
}

/// Each part trimmed and lowercased.
pub open spec fn lowered_parts(parts: Seq<Seq<char>>) -> Seq<Seq<char>> {
    parts.map_values(|p: Seq<char>| lower_of(trim_seq(p)))
}

/// The modifier a lowercased name stands for, as a bit (0 for none).
pub open spec fn spec_modifier_bit(p: Seq<char>) -> u8 {
    if p == "shift"@ {
        Modifiers::SHIFT
    } else if p == "ctrl"@ || p == "control"@ {
        Modifiers::CTRL
    } else if p == "alt"@ || p == "mod1"@ {
        Modifiers::ALT
    } else if p == "super"@ || p == "mod4"@ || p == "logo"@ || p == "win"@ {
        Modifiers::SUPER
    } else {
        0
    }
}

/// The union of the modifier bits of all parts.
pub open spec fn modifier_bits(parts: Seq<Seq<char>>) -> u8
    decreases parts.len(),
{
    if parts.len() == 0 {
        0
    } else {
        modifier_bits(parts.drop_last()) | spec_modifier_bit(parts.last())
    }
}

/// The modifier bit of a lowercased name (0 when it names no modifier).
pub fn modifier_bit(p: &str) -> (r: u8)
    ensures
        r == spec_modifier_bit(p@),
{
    if str_eq(p, "shift") {
        Modifiers::SHIFT
    } else if str_eq(p, "ctrl") || str_eq(p, "control") {
        Modifiers::CTRL
    } else if str_eq(p, "alt") || str_eq(p, "mod1") {
        Modifiers::ALT
    } else if str_eq(p, "super") || str_eq(p, "mod4") || str_eq(p, "logo") || str_eq(p, "win") {
        Modifiers::SUPER
    } else {
        0
    }
}

/// A key code.
#[derive(Debug, Clone, Copy, PartialEq, Eq, Hash, Structural)]
pub enum KeyCode {
    A,
    B,
    C,
    D,
    E,
    F,
    G,
    H,
    I,
    J,
    K,
    L,
    M,
    N,
    O,
    P,
    Q,
    R,
    S,
    T,
    U,
    V,
    W,
    X,
    Y,
    Z,
    Key1,
    Key2,
    Key3,
    Key4,
    Key5,
    Key6,
    Key7,
    Key8,
    Key9,
    Key0,
    F1,
    F2,
    F3,
    F4,
    F5,
    F6,
    F7,
    F8,
    F9,
    F10,
    F11,
    F12,
    Escape,
    Tab,
    Space,
    Return,
    Backspace,
    Delete,
    Insert,
    Home,
    End,
    PageUp,
    PageDown,
    Left,
    Right,
    Up,
    Down,
    Minus,
    Equal,
    BracketLeft,
    BracketRight,
    Semicolon,
    Apostrophe,
    Grave,
    Backslash,
    Comma,
    Period,
    Slash,
    ShiftL,
    ShiftR,
    CtrlL,
    CtrlR,
    AltL,
    AltR,
    SuperL,
    SuperR,
    AudioMute,
    AudioLowerVolume,
    AudioRaiseVolume,
    AudioPlay,
    AudioPause,
    AudioStop,
    AudioPrev,
    AudioNext,
    Print,
    ScrollLock,
    Pause,
    NumLock,
    CapsLock,
    Kp0,
    Kp1,
    Kp2,
    Kp3,
    Kp4,
    Kp5,
    Kp6,
    Kp7,
    Kp8,
    Kp9,
    KpDecimal,
    KpDivide,
    KpMultiply,
    KpSubtract,
    KpAdd,
    KpEnter,
    Unknown(u32),
}

/// The key a lowercased key name stands for.
pub open spec fn spec_key_of(n: Seq<char>) -> Option<KeyCode> {
    if n == "a"@ {
        Some(KeyCode::A)
    } else if n == "b"@ {
        Some(KeyCode::B)
    } else if n == "c"@ {
        Some(KeyCode::C)
    } else if n == "d"@ {
        Some(KeyCode::D)
    } else if n == "e"@ {
        Some(KeyCode::E)
    } else if n == "f"@ {
        Some(KeyCode::F)
    } else if n == "g"@ {
        Some(KeyCode::G)
    } else if n == "h"@ {
        Some(KeyCode::H)
    } else if n == "i"@ {
        Some(KeyCode::I)
    } else if n == "j"@ {
        Some(KeyCode::J)
    } else if n == "k"@ {
        Some(KeyCode::K)
    } else if n == "l"@ {
        Some(KeyCode::L)
    } else if n == "m"@ {
        Some(KeyCode::M)
    } else if n == "n"@ {
        Some(KeyCode::N)
    } else if n == "o"@ {
        Some(KeyCode::O)
    } else if n == "p"@ {
        Some(KeyCode::P)
    } else if n == "q"@ {
        Some(KeyCode::Q)
    } else if n == "r"@ {
        Some(KeyCode::R)
    } else if n == "s"@ {
        Some(KeyCode::S)
    } else if n == "t"@ {
        Some(KeyCode::T)
    } else if n == "u"@ {
        Some(KeyCode::U)
    } else if n == "v"@ {
        Some(KeyCode::V)
    } else if n == "w"@ {
        Some(KeyCode::W)
    } else if n == "x"@ {
        Some(KeyCode::X)
    } else if n == "y"@ {
        Some(KeyCode::Y)
    } else if n == "z"@ {
        Some(KeyCode::Z)
    } else if n == "1"@ || n == "key1"@ {
        Some(KeyCode::Key1)
    } else if n == "2"@ || n == "key2"@ {
        Some(KeyCode::Key2)
    } else if n == "3"@ || n == "key3"@ {
        Some(KeyCode::Key3)
    } else if n == "4"@ || n == "key4"@ {
        Some(KeyCode::Key4)
    } else if n == "5"@ || n == "key5"@ {
        Some(KeyCode::Key5)
    } else if n == "6"@ || n == "key6"@ {
        Some(KeyCode::Key6)
    } else if n == "7"@ || n == "key7"@ {
        Some(KeyCode::Key7)
    } else if n == "8"@ || n == "key8"@ {
        Some(KeyCode::Key8)
    } else if n == "9"@ || n == "key9"@ {
        Some(KeyCode::Key9)
    } else if n == "0"@ || n == "key0"@ {
        Some(KeyCode::Key0)
    } else if n == "f1"@ {
        Some(KeyCode::F1)
    } else if n == "f2"@ {
        Some(KeyCode::F2)
    } else if n == "f3"@ {
        Some(KeyCode::F3)
    } else if n == "f4"@ {
        Some(KeyCode::F4)
    } else if n == "f5"@ {
        Some(KeyCode::F5)
    } else if n == "f6"@ {
        Some(KeyCode::F6)
    } else if n == "f7"@ {
        Some(KeyCode::F7)
    } else if n == "f8"@ {
        Some(KeyCode::F8)
    } else if n == "f9"@ {
        Some(KeyCode::F9)
    } else if n == "f10"@ {
        Some(KeyCode::F10)
    } else if n == "f11"@ {
        Some(KeyCode::F11)
    } else if n == "f12"@ {
        Some(KeyCode::F12)
    } else if n == "escape"@ || n == "esc"@ {
        Some(KeyCode::Escape)
    } else if n == "tab"@ {
        Some(KeyCode::Tab)
    } else if n == "space"@ {
        Some(KeyCode::Space)
    } else if n == "return"@ || n == "enter"@ {
        Some(KeyCode::Return)
    } else if n == "backspace"@ {
        Some(KeyCode::Backspace)
    } else if n == "delete"@ {
        Some(KeyCode::Delete)
    } else if n == "insert"@ {
        Some(KeyCode::Insert)
    } else if n == "home"@ {
        Some(KeyCode::Home)
    } else if n == "end"@ {
        Some(KeyCode::End)
    } else if n == "pageup"@ || n == "page_up"@ || n == "prior"@ {
        Some(KeyCode::PageUp)
    } else if n == "pagedown"@ || n == "page_down"@ || n == "next"@ {
        Some(KeyCode::PageDown)
    } else if n == "left"@ {
        Some(KeyCode::Left)
    } else if n == "right"@ {
        Some(KeyCode::Right)
    } else if n == "up"@ {
        Some(KeyCode::Up)
    } else if n == "down"@ {
        Some(KeyCode::Down)
    } else if n == "minus"@ || n == "-"@ {
        Some(KeyCode::Minus)
    } else if n == "equal"@ || n == "="@ {
        Some(KeyCode::Equal)
    } else if n == "bracketleft"@ || n == "["@ {
        Some(KeyCode::BracketLeft)
    } else if n == "bracketright"@ || n == "]"@ {
        Some(KeyCode::BracketRight)
    } else if n == "semicolon"@ || n == ";"@ {
        Some(KeyCode::Semicolon)
    } else if n == "apostrophe"@ || n == "'"@ {
        Some(KeyCode::Apostrophe)
    } else if n == "grave"@ || n == "`"@ {
        Some(KeyCode::Grave)
    } else if n == "backslash"@ || n == "\\"@ {
        Some(KeyCode::Backslash)
    } else if n == "comma"@ || n == ","@ {
        Some(KeyCode::Comma)
    } else if n == "period"@ || n == "."@ {
        Some(KeyCode::Period)
    } else if n == "slash"@ || n == "/"@ {
        Some(KeyCode::Slash)
    } else if n == "xf86audiomute"@ || n == "audiomute"@ {
        Some(KeyCode::AudioMute)
    } else if n == "xf86audiolowervolume"@ || n == "audiolowervolume"@ {
        Some(KeyCode::AudioLowerVolume)
    } else if n == "xf86audioraisevolume"@ || n == "audioraisevolume"@ {
        Some(KeyCode::AudioRaiseVolume)
    } else if n == "xf86audioplay"@ || n == "audioplay"@ {
        Some(KeyCode::AudioPlay)
    } else if n == "xf86audiopause"@ || n == "audiopause"@ {
        Some(KeyCode::AudioPause)
    } else if n == "xf86audiostop"@ || n == "audiostop"@ {
        Some(KeyCode::AudioStop)
    } else if n == "xf86audioprev"@ || n == "audioprev"@ {
        Some(KeyCode::AudioPrev)
    } else if n == "xf86audionext"@ || n == "audionext"@ {
        Some(KeyCode::AudioNext)
    } else if n == "print"@ {
        Some(KeyCode::Print)
    } else if n == "scroll_lock"@ || n == "scrolllock"@ {
        Some(KeyCode::ScrollLock)
    } else if n == "pause"@ {
        Some(KeyCode::Pause)
    } else if n == "num_lock"@ || n == "numlock"@ {
        Some(KeyCode::NumLock)
    } else if n == "caps_lock"@ || n == "capslock"@ {
        Some(KeyCode::CapsLock)
    } else {
        None
    }
}

/// The key a lowercased key name stands for.
pub fn key_of_lowered(n: &str) -> (r: Option<KeyCode>)
    ensures
        r == spec_key_of(n@),
{
    if str_eq(n, "a") {
        Some(KeyCode::A)
    } else if str_eq(n, "b") {
        Some(KeyCode::B)
    } else if str_eq(n, "c") {
        Some(KeyCode::C)
    } else if str_eq(n, "d") {
        Some(KeyCode::D)
    } else if str_eq(n, "e") {
        Some(KeyCode::E)
    } else if str_eq(n, "f") {
        Some(KeyCode::F)
    } else if str_eq(n, "g") {
        Some(KeyCode::G)
    } else if str_eq(n, "h") {
        Some(KeyCode::H)
    } else if str_eq(n, "i") {
        Some(KeyCode::I)
    } else if str_eq(n, "j") {
        Some(KeyCode::J)
    } else if str_eq(n, "k") {
        Some(KeyCode::K)
    } else if str_eq(n, "l") {
        Some(KeyCode::L)
    } else if str_eq(n, "m") {
        Some(KeyCode::M)
    } else if str_eq(n, "n") {
        Some(KeyCode::N)
    } else if str_eq(n, "o") {
        Some(KeyCode::O)
    } else if str_eq(n, "p") {
        Some(KeyCode::P)
    } else if str_eq(n, "q") {
        Some(KeyCode::Q)
    } else if str_eq(n, "r") {
        Some(KeyCode::R)
    } else if str_eq(n, "s") {
        Some(KeyCode::S)
    } else if str_eq(n, "t") {
        Some(KeyCode::T)
    } else if str_eq(n, "u") {
        Some(KeyCode::U)
    } else if str_eq(n, "v") {
        Some(KeyCode::V)
    } else if str_eq(n, "w") {
        Some(KeyCode::W)
    } else if str_eq(n, "x") {
        Some(KeyCode::X)
    } else if str_eq(n, "y") {
        Some(KeyCode::Y)
    } else if str_eq(n, "z") {
        Some(KeyCode::Z)
    } else if str_eq(n, "1") || str_eq(n, "key1") {
        Some(KeyCode::Key1)
    } else if str_eq(n, "2") || str_eq(n, "key2") {
        Some(KeyCode::Key2)
    } else if str_eq(n, "3") || str_eq(n, "key3") {
        Some(KeyCode::Key3)
    } else if str_eq(n, "4") || str_eq(n, "key4") {
        Some(KeyCode::Key4)
    } else if str_eq(n, "5") || str_eq(n, "key5") {
        Some(KeyCode::Key5)
    } else if str_eq(n, "6") || str_eq(n, "key6") {
        Some(KeyCode::Key6)
    } else if str_eq(n, "7") || str_eq(n, "key7") {
        Some(KeyCode::Key7)
    } else if str_eq(n, "8") || str_eq(n, "key8") {
        Some(KeyCode::Key8)
    } else if str_eq(n, "9") || str_eq(n, "key9") {
        Some(KeyCode::Key9)
    } else if str_eq(n, "0") || str_eq(n, "key0") {
        Some(KeyCode::Key0)
    } else if str_eq(n, "f1") {
        Some(KeyCode::F1)
    } else if str_eq(n, "f2") {
        Some(KeyCode::F2)
    } else if str_eq(n, "f3") {
        Some(KeyCode::F3)
    } else if str_eq(n, "f4") {
        Some(KeyCode::F4)
    } else if str_eq(n, "f5") {
        Some(KeyCode::F5)
    } else if str_eq(n, "f6") {
        Some(KeyCode::F6)
    } else if str_eq(n, "f7") {
        Some(KeyCode::F7)
    } else if str_eq(n, "f8") {
        Some(KeyCode::F8)
    } else if str_eq(n, "f9") {
        Some(KeyCode::F9)
    } else if str_eq(n, "f10") {
        Some(KeyCode::F10)
    } else if str_eq(n, "f11") {
        Some(KeyCode::F11)
    } else if str_eq(n, "f12") {
        Some(KeyCode::F12)
    } else if str_eq(n, "escape") || str_eq(n, "esc") {
        Some(KeyCode::Escape)
    } else if str_eq(n, "tab") {
        Some(KeyCode::Tab)
    } else if str_eq(n, "space") {
        Some(KeyCode::Space)
    } else if str_eq(n, "return") || str_eq(n, "enter") {
        Some(KeyCode::Return)
    } else if str_eq(n, "backspace") {
        Some(KeyCode::Backspace)
    } else if str_eq(n, "delete") {
        Some(KeyCode::Delete)
    } else if str_eq(n, "insert") {
        Some(KeyCode::Insert)
    } else if str_eq(n, "home") {
        Some(KeyCode::Home)
    } else if str_eq(n, "end") {
        Some(KeyCode::End)
    } else if str_eq(n, "pageup") || str_eq(n, "page_up") || str_eq(n, "prior") {
        Some(KeyCode::PageUp)
    } else if str_eq(n, "pagedown") || str_eq(n, "page_down") || str_eq(n, "next") {
        Some(KeyCode::PageDown)
    } else if str_eq(n, "left") {
        Some(KeyCode::Left)
    } else if str_eq(n, "right") {
        Some(KeyCode::Right)
    } else if str_eq(n, "up") {
        Some(KeyCode::Up)
    } else if str_eq(n, "down") {
        Some(KeyCode::Down)
    } else if str_eq(n, "minus") || str_eq(n, "-") {
        Some(KeyCode::Minus)
    } else if str_eq(n, "equal") || str_eq(n, "=") {
        Some(KeyCode::Equal)
    } else if str_eq(n, "bracketleft") || str_eq(n, "[") {
        Some(KeyCode::BracketLeft)
    } else if str_eq(n, "bracketright") || str_eq(n, "]") {
        Some(KeyCode::BracketRight)
    } else if str_eq(n, "semicolon") || str_eq(n, ";") {
        Some(KeyCode::Semicolon)
    } else if str_eq(n, "apostrophe") || str_eq(n, "'") {
        Some(KeyCode::Apostrophe)
    } else if str_eq(n, "grave") || str_eq(n, "`") {
        Some(KeyCode::Grave)
    } else if str_eq(n, "backslash") || str_eq(n, "\\") {
        Some(KeyCode::Backslash)
    } else if str_eq(n, "comma") || str_eq(n, ",") {
        Some(KeyCode::Comma)
    } else if str_eq(n, "period") || str_eq(n, ".") {
        Some(KeyCode::Period)
    } else if str_eq(n, "slash") || str_eq(n, "/") {
        Some(KeyCode::Slash)
    } else if str_eq(n, "xf86audiomute") || str_eq(n, "audiomute") {
        Some(KeyCode::AudioMute)
    } else if str_eq(n, "xf86audiolowervolume") || str_eq(n, "audiolowervolume") {
        Some(KeyCode::AudioLowerVolume)
    } else if str_eq(n, "xf86audioraisevolume") || str_eq(n, "audioraisevolume") {
        Some(KeyCode::AudioRaiseVolume)
    } else if str_eq(n, "xf86audioplay") || str_eq(n, "audioplay") {
        Some(KeyCode::AudioPlay)
    } else if str_eq(n, "xf86audiopause") || str_eq(n, "audiopause") {
        Some(KeyCode::AudioPause)
    } else if str_eq(n, "xf86audiostop") || str_eq(n, "audiostop") {
        Some(KeyCode::AudioStop)
    } else if str_eq(n, "xf86audioprev") || str_eq(n, "audioprev") {
        Some(KeyCode::AudioPrev)
    } else if str_eq(n, "xf86audionext") || str_eq(n, "audionext") {
        Some(KeyCode::AudioNext)
    } else if str_eq(n, "print") {
        Some(KeyCode::Print)
    } else if str_eq(n, "scroll_lock") || str_eq(n, "scrolllock") {
        Some(KeyCode::ScrollLock)
    } else if str_eq(n, "pause") {
        Some(KeyCode::Pause)
    } else if str_eq(n, "num_lock") || str_eq(n, "numlock") {
        Some(KeyCode::NumLock)
    } else if str_eq(n, "caps_lock") || str_eq(n, "capslock") {
        Some(KeyCode::CapsLock)
    } else {
        None
    }
}

impl KeyCode {
    /// Parse a key name, ignoring case.
    pub fn from_name(name: &str) -> (r: Result<KeyCode, InputError>)
        ensures
            match spec_key_of(lower_of(name@)) {
                Some(k) => r == Ok::<KeyCode, InputError>(k),
                None => r matches Err(InputError::Key(s)) && s@ == name@,
            },
    {
        let lower = lowercase(name);
        match key_of_lowered(lower.as_str()) {
            Some(k) => Ok(k),
            None => Err(InputError::Key(name.to_owned())),
        }
    }
}

/// The key of a Linux input keycode, for the keys the engine knows.
pub open spec fn spec_key_of_raw(code: u32) -> Option<KeyCode> {
    if code == 16 {
        Some(KeyCode::Q)
    } else if code == 17 {
        Some(KeyCode::W)
    } else if code == 18 {
        Some(KeyCode::E)
    } else if code == 19 {
        Some(KeyCode::R)
    } else if code == 20 {
        Some(KeyCode::T)
    } else if code == 21 {
        Some(KeyCode::Y)
    } else if code == 22 {
        Some(KeyCode::U)
    } else if code == 23 {
        Some(KeyCode::I)
    } else if code == 24 {
        Some(KeyCode::O)
    } else if code == 25 {
        Some(KeyCode::P)
    } else if code == 30 {
        Some(KeyCode::A)
    } else if code == 31 {
        Some(KeyCode::S)
    } else if code == 32 {
        Some(KeyCode::D)
    } else if code == 33 {
        Some(KeyCode::F)
    } else if code == 34 {
        Some(KeyCode::G)
    } else if code == 35 {
        Some(KeyCode::H)
    } else if code == 36 {
        Some(KeyCode::J)
    } else if code == 37 {
        Some(KeyCode::K)
    } else if code == 38 {
        Some(KeyCode::L)
    } else if code == 44 {
        Some(KeyCode::Z)
    } else if code == 45 {
        Some(KeyCode::X)
    } else if code == 46 {
        Some(KeyCode::C)
    } else if code == 47 {
        Some(KeyCode::V)
    } else if code == 48 {
        Some(KeyCode::B)
    } else if code == 49 {
        Some(KeyCode::N)
    } else if code == 50 {
        Some(KeyCode::M)
    } else if code == 2 {
        Some(KeyCode::Key1)
    } else if code == 3 {
        Some(KeyCode::Key2)
    } else if code == 4 {
        Some(KeyCode::Key3)
    } else if code == 5 {
        Some(KeyCode::Key4)
    } else if code == 6 {
        Some(KeyCode::Key5)
    } else if code == 7 {
        Some(KeyCode::Key6)
    } else if code == 8 {
        Some(KeyCode::Key7)
    } else if code == 9 {
        Some(KeyCode::Key8)
    } else if code == 10 {
        Some(KeyCode::Key9)
    } else if code == 11 {
        Some(KeyCode::Key0)
    } else if code == 1 {
        Some(KeyCode::Escape)
    } else if code == 28 {
        Some(KeyCode::Return)
    } else if code == 57 {
        Some(KeyCode::Space)
    } else if code == 14 {
        Some(KeyCode::Backspace)
    } else if code == 15 {
        Some(KeyCode::Tab)
    } else if code == 103 {
        Some(KeyCode::Up)
    } else if code == 108 {
        Some(KeyCode::Down)
    } else if code == 105 {
        Some(KeyCode::Left)
    } else if code == 106 {
        Some(KeyCode::Right)
    } else if code == 59 {
        Some(KeyCode::F1)
    } else if code == 60 {
        Some(KeyCode::F2)
    } else if code == 61 {
        Some(KeyCode::F3)
    } else if code == 62 {
        Some(KeyCode::F4)
    } else if code == 63 {
        Some(KeyCode::F5)
    } else if code == 64 {
        Some(KeyCode::F6)
    } else if code == 65 {
        Some(KeyCode::F7)
    } else if code == 66 {
        Some(KeyCode::F8)
    } else if code == 67 {
        Some(KeyCode::F9)
    } else if code == 68 {
        Some(KeyCode::F10)
    } else if code == 87 {
        Some(KeyCode::F11)
    } else if code == 88 {
        Some(KeyCode::F12)
    } else {
        None
    }
}

/// The key of a Linux input keycode.
pub fn key_of_raw(code: u32) -> (r: Option<KeyCode>)
    ensures
        r == spec_key_of_raw(code),
{
    match code {
        16 => Some(KeyCode::Q),
        17 => Some(KeyCode::W),
        18 => Some(KeyCode::E),
        19 => Some(KeyCode::R),
        20 => Some(KeyCode::T),
        21 => Some(KeyCode::Y),
        22 => Some(KeyCode::U),
        23 => Some(KeyCode::I),
        24 => Some(KeyCode::O),
        25 => Some(KeyCode::P),
        30 => Some(KeyCode::A),
        31 => Some(KeyCode::S),
        32 => Some(KeyCode::D),
        33 => Some(KeyCode::F),
        34 => Some(KeyCode::G),
        35 => Some(KeyCode::H),
        36 => Some(KeyCode::J),
        37 => Some(KeyCode::K),
        38 => Some(KeyCode::L),
        44 => Some(KeyCode::Z),
        45 => Some(KeyCode::X),
        46 => Some(KeyCode::C),
        47 => Some(KeyCode::V),
        48 => Some(KeyCode::B),
        49 => Some(KeyCode::N),
        50 => Some(KeyCode::M),
        2 => Some(KeyCode::Key1),
        3 => Some(KeyCode::Key2),
        4 => Some(KeyCode::Key3),
        5 => Some(KeyCode::Key4),
        6 => Some(KeyCode::Key5),
        7 => Some(KeyCode::Key6),
        8 => Some(KeyCode::Key7),
        9 => Some(KeyCode::Key8),
        10 => Some(KeyCode::Key9),
        11 => Some(KeyCode::Key0),
        1 => Some(KeyCode::Escape),
        28 => Some(KeyCode::Return),
        57 => Some(KeyCode::Space),
        14 => Some(KeyCode::Backspace),
        15 => Some(KeyCode::Tab),
        103 => Some(KeyCode::Up),
        108 => Some(KeyCode::Down),
        105 => Some(KeyCode::Left),
        106 => Some(KeyCode::Right),
        59 => Some(KeyCode::F1),
        60 => Some(KeyCode::F2),
        61 => Some(KeyCode::F3),
        62 => Some(KeyCode::F4),
        63 => Some(KeyCode::F5),
        64 => Some(KeyCode::F6),
        65 => Some(KeyCode::F7),
        66 => Some(KeyCode::F8),
        67 => Some(KeyCode::F9),
        68 => Some(KeyCode::F10),
        87 => Some(KeyCode::F11),
        88 => Some(KeyCode::F12),
        _ => None,
    }
}
/// Mouse button.
#[derive(Debug, Clone, Copy, PartialEq, Eq, Hash, Structural)]
pub enum MouseButton {
    Left,
    Middle,
    Right,
    ScrollUp,
    ScrollDown,
    ScrollLeft,
    ScrollRight,
    Extra1,
    Extra2,
}

/// The button a lowercased button name stands for.
pub open spec fn spec_button_of(n: Seq<char>) -> Option<MouseButton> {
    if n == "button1"@ || n == "left"@ || n == "lmb"@ {
        Some(MouseButton::Left)
    } else if n == "button2"@ || n == "middle"@ || n == "mmb"@ {
        Some(MouseButton::Middle)
    } else if n == "button3"@ || n == "right"@ || n == "rmb"@ {
        Some(MouseButton::Right)
    } else if n == "button4"@ || n == "scrollup"@ {
        Some(MouseButton::ScrollUp)
    } else if n == "button5"@ || n == "scrolldown"@ {
        Some(MouseButton::ScrollDown)
    } else if n == "button6"@ || n == "scrollleft"@ {
        Some(MouseButton::ScrollLeft)
    } else if n == "button7"@ || n == "scrollright"@ {
        Some(MouseButton::ScrollRight)
    } else if n == "button8"@ || n == "extra1"@ {
        Some(MouseButton::Extra1)
    } else if n == "button9"@ || n == "extra2"@ {
        Some(MouseButton::Extra2)
    } else {
        None
    }
}

/// The button a lowercased button name stands for.
pub fn button_of_lowered(n: &str) -> (r: Option<MouseButton>)
    ensures
        r == spec_button_of(n@),
{
    if str_eq(n, "button1") || str_eq(n, "left") || str_eq(n, "lmb") {
        Some(MouseButton::Left)
    } else if str_eq(n, "button2") || str_eq(n, "middle") || str_eq(n, "mmb") {
        Some(MouseButton::Middle)
    } else if str_eq(n, "button3") || str_eq(n, "right") || str_eq(n, "rmb") {
        Some(MouseButton::Right)
    } else if str_eq(n, "button4") || str_eq(n, "scrollup") {
        Some(MouseButton::ScrollUp)
    } else if str_eq(n, "button5") || str_eq(n, "scrolldown") {
        Some(MouseButton::ScrollDown)
    } else if str_eq(n, "button6") || str_eq(n, "scrollleft") {
        Some(MouseButton::ScrollLeft)
    } else if str_eq(n, "button7") || str_eq(n, "scrollright") {
        Some(MouseButton::ScrollRight)
    } else if str_eq(n, "button8") || str_eq(n, "extra1") {
        Some(MouseButton::Extra1)
    } else if str_eq(n, "button9") || str_eq(n, "extra2") {
        Some(MouseButton::Extra2)
    } else {
        None
    }
}

impl MouseButton {
    /// Parse a button name, ignoring case.
    pub fn from_name(name: &str) -> (r: Result<MouseButton, InputError>)
        ensures
            match spec_button_of(lower_of(name@)) {
                Some(b) => r == Ok::<MouseButton, InputError>(b),
                None => r matches Err(InputError::Key(s)) && s@ == name@,
            },
    {
        let lower = lowercase(name);
        match button_of_lowered(lower.as_str()) {
            Some(b) => Ok(b),
            None => Err(InputError::Key(name.to_owned())),
        }
    }
}

/// The last part (trimmed) that names no modifier: the key or button of a binding.
pub open spec fn last_non_modifier(parts: Seq<Seq<char>>) -> Option<Seq<char>>
    decreases parts.len(),
{
    if parts.len() == 0 {
        None
    } else if spec_modifier_bit(lower_of(trim_seq(parts.last()))) == 0 {
        Some(trim_seq(parts.last()))
    } else {
        last_non_modifier(parts.drop_last())
    }
}

/// The modifiers and the key part of a binding string split at `+`.
fn binding_parts(s: &str) -> (r: (Modifiers, Option<String>))
    ensures
        r.0.bits == modifier_bits(lowered_parts(split_on(s@, '+'))),
        match (r.1, last_non_modifier(split_on(s@, '+'))) {
            (Some(a), Some(b)) => a@ == b,
            (None, None) => true,
            _ => false,
        },
{
    let parts = split_str(s, '+');
    let ghost all = split_on(s@, '+');
    let mut mods = Modifiers::empty();
    let mut key: Option<String> = None;
    let mut i: usize = 0;
    while i < parts.len()
        invariant
            i <= parts@.len(),
            parts@.len() == all.len(),
            all == split_on(s@, '+'),
            forall|k: int| 0 <= k < parts@.len() ==> #[trigger] parts@[k]@ == all[k],
            mods.bits == modifier_bits(lowered_parts(all).subrange(0, i as int)),
            match (key, last_non_modifier(all.subrange(0, i as int))) {
                (Some(a), Some(b)) => a@ == b,
                (None, None) => true,
                _ => false,
            },
        decreases parts@.len() - i,
    {
        let part = trim(parts[i].as_str());
        let lower = lowercase(part);
        let bit = modifier_bit(lower.as_str());
        proof {
            assert(lowered_parts(all).subrange(0, i + 1).drop_last() =~= lowered_parts(all).subrange(0, i as int));
            assert(all.subrange(0, i + 1).drop_last() =~= all.subrange(0, i as int));
            assert(all.subrange(0, i + 1).last() == all[i as int]);
        }
        if bit == 0 {
            key = Some(part.to_owned());
        } else {
            mods.bits = mods.bits | bit;
        }
        proof {
            if bit == 0 {
                assert(0u8 | 0u8 == 0u8) by (bit_vector);
                let b = mods.bits;
                assert(b | 0u8 == b) by (bit_vector);
            }
        }
        i = i + 1;
    }
    assert(lowered_parts(all).subrange(0, i as int) =~= lowered_parts(all));
    assert(all.subrange(0, i as int) =~= all);
    (mods, key)
}

/// A key binding (modifiers and key).
#[derive(Debug, Clone, Copy, PartialEq, Eq, Hash, Structural)]
pub struct KeyBinding {
    pub modifiers: Modifiers,
    pub key: KeyCode,
}

impl KeyBinding {
    pub fn new(modifiers: Modifiers, key: KeyCode) -> (r: Self)
        ensures
            r == (KeyBinding { modifiers, key }),
    {
        KeyBinding { modifiers, key }
    }

    /// Parse a binding like "Mod4+Shift+Return": modifier names anywhere,
    /// the last other part is the key.
    pub fn parse(s: &str) -> (r: Result<KeyBinding, InputError>)
        ensures
            match last_non_modifier(split_on(s@, '+')) {
                None => r matches Err(InputError::Binding(e)) && e@ == s@,
                Some(k) => match spec_key_of(lower_of(k)) {
                    Some(key) => r == Ok::<KeyBinding, InputError>(KeyBinding {
                        modifiers: Modifiers { bits: modifier_bits(lowered_parts(split_on(s@, '+'))) },
                        key,
                    }),
                    None => r matches Err(InputError::Key(e)) && e@ == k,
                },
            },
    {
        let (modifiers, key_part) = binding_parts(s);
        match key_part {
            Some(k) => match KeyCode::from_name(k.as_str()) {
                Ok(key) => Ok(KeyBinding { modifiers, key }),
                Err(e) => Err(e),
            },
            None => Err(InputError::Binding(s.to_owned())),
        }
    }
}

/// A mouse binding (modifiers and button).
#[derive(Debug, Clone, Copy, PartialEq, Eq, Hash, Structural)]
pub struct MouseBinding {
    pub modifiers: Modifiers,
    pub button: MouseButton,
}

impl MouseBinding {
    /// Parse a binding like "Mod4+button1".
    pub fn parse(s: &str) -> (r: Result<MouseBinding, InputError>)
        ensures
            match last_non_modifier(split_on(s@, '+')) {
                None => r matches Err(InputError::Binding(e)) && e@ == s@,
                Some(k) => match spec_button_of(lower_of(k)) {
                    Some(button) => r == Ok::<MouseBinding, InputError>(MouseBinding {
                        modifiers: Modifiers { bits: modifier_bits(lowered_parts(split_on(s@, '+'))) },
                        button,
                    }),
                    None => r matches Err(InputError::Key(e)) && e@ == k,
                },
            },
    {
        let (modifiers, button_part) = binding_parts(s);
        match button_part {
            Some(b) => match MouseButton::from_name(b.as_str()) {
                Ok(button) => Ok(MouseBinding { modifiers, button }),
                Err(e) => Err(e),
            },
            None => Err(InputError::Binding(s.to_owned())),
        }
    }
}

/// Command to execute from a binding.
#[derive(Debug, Clone, PartialEq, Eq)]
pub enum Command {
    Exec(String),
    ExecAlways(String),
    Kill,
    Focus(FocusTarget),
    Move(MoveTarget),
    Resize(ResizeDirection, i32),
    Floating(Toggle),
    Fullscreen(Toggle),
    Sticky(Toggle),
    Split(SplitCmd),
    Layout(LayoutCmd),
    Workspace(WorkspaceTarget),
    MoveToWorkspace(WorkspaceTarget),
    ScratchpadShow,
    MoveToScratchpad,
    Mark(String),
    Unmark(Option<String>),
    GotoMark(String),
    Mode(String),
    Reload,
    Restart,
    Exit,
    Gaps(GapCmd),
    Bar(BarCmd),
    Unknown(String),
}

#[derive(Debug, Clone, Copy, PartialEq, Eq, Structural)]
pub enum Toggle {
    Enable,
    Disable,
    Switch,
}

#[derive(Debug, Clone, PartialEq, Eq)]
pub enum FocusTarget {
    Left,
    Right,
    Up,
    Down,
    Parent,
    Child,
    ModeToggle,
    Output(String),
    Workspace,
}

#[derive(Debug, Clone, PartialEq, Eq)]
pub enum MoveTarget {
    Left,
    Right,
    Up,
    Down,
    Position(i32, i32),
    Center,
    Absolute(i32, i32),
    Output(String),
}

#[derive(Debug, Clone, Copy, PartialEq, Eq, Structural)]
pub enum ResizeDirection {
    Width(ResizeOp),
    Height(ResizeOp),
    Left,
    Right,
    Up,
    Down,
}

#[derive(Debug, Clone, Copy, PartialEq, Eq, Structural)]
pub enum ResizeOp {
    Grow,
    Shrink,
    SetTo,
}

#[derive(Debug, Clone, Copy, PartialEq, Eq, Structural)]
pub enum SplitCmd {
    Horizontal,
    Vertical,
    Toggle,
    NoSplit,
}

#[derive(Debug, Clone, Copy, PartialEq, Eq, Structural)]
pub enum LayoutCmd {
    Default,
    Tabbed,
    Stacked,
    SplitV,
    SplitH,
    Toggle,
    ToggleSplit,
    ToggleAll,
}

#[derive(Debug, Clone, PartialEq, Eq)]
pub enum WorkspaceTarget {
    Name(String),
    Number(u32),
    Next,
    Prev,
    NextOnOutput,
    PrevOnOutput,
    BackAndForth,
}

#[derive(Debug, Clone, PartialEq, Eq)]
pub enum GapCmd {
    Inner(GapOp),
    Outer(GapOp),
    Horizontal(GapOp),
    Vertical(GapOp),
    Top(GapOp),
    Right(GapOp),
    Bottom(GapOp),
    Left(GapOp),
}

#[derive(Debug, Clone, PartialEq, Eq)]
pub enum GapOp {
    SetTo(i32),
    Plus(i32),
    Minus(i32),
    Toggle(i32),
}

#[derive(Debug, Clone, PartialEq, Eq)]
pub enum BarCmd {
    Mode(String),
    Hidden(Toggle),
}

/// `Unknown` holding exactly `text`.
pub open spec fn unknown_of(r: Command, text: Seq<char>) -> bool {
    r matches Command::Unknown(u) && u@ == text
}

/// A workspace target from its argument: a keyword, a number, or a name.
pub open spec fn workspace_target_post(t: WorkspaceTarget, args: Seq<char>, args_l: Seq<char>) -> bool {
    if args_l == "next"@ {
        t == WorkspaceTarget::Next
    } else if args_l == "prev"@ || args_l == "previous"@ {
        t == WorkspaceTarget::Prev
    } else if args_l == "next_on_output"@ {
        t == WorkspaceTarget::NextOnOutput
    } else if args_l == "prev_on_output"@ {
        t == WorkspaceTarget::PrevOnOutput
    } else if args_l == "back_and_forth"@ {
        t == WorkspaceTarget::BackAndForth
    } else {
        match spec_parse_u32(args) {
            Some(n) => t == WorkspaceTarget::Number(n),
            None => t matches WorkspaceTarget::Name(s) && s@ == args,
        }
    }
}

/// A toggle argument: enable, disable, or toggle (also when empty).
pub open spec fn toggle_of(args_l: Seq<char>) -> Option<Toggle> {
    if args_l == "enable"@ {
        Some(Toggle::Enable)
    } else if args_l == "disable"@ {
        Some(Toggle::Disable)
    } else if args_l == "toggle"@ || args_l.len() == 0 {
        Some(Toggle::Switch)
    } else {
        None
    }
}

fn parse_toggle(args_l: &str) -> (r: Option<Toggle>)
    ensures
        r == toggle_of(args_l@),
{
    if str_eq(args_l, "enable") {
        Some(Toggle::Enable)
    } else if str_eq(args_l, "disable") {
        Some(Toggle::Disable)
    } else if str_eq(args_l, "toggle") || args_l.unicode_len() == 0 {
        Some(Toggle::Switch)
    } else {
        None
    }
}

fn parse_workspace_target(args: &str, args_l: &str) -> (r: WorkspaceTarget)
    ensures
        workspace_target_post(r, args@, args_l@),
{
    if str_eq(args_l, "next") {
        WorkspaceTarget::Next
    } else if str_eq(args_l, "prev") || str_eq(args_l, "previous") {
        WorkspaceTarget::Prev
    } else if str_eq(args_l, "next_on_output") {
        WorkspaceTarget::NextOnOutput
    } else if str_eq(args_l, "prev_on_output") {
        WorkspaceTarget::PrevOnOutput
    } else if str_eq(args_l, "back_and_forth") {
        WorkspaceTarget::BackAndForth
    } else {
        match parse_u32(args) {
            Some(n) => WorkspaceTarget::Number(n),
            None => WorkspaceTarget::Name(args.to_owned()),
        }
    }
}

/// The words joined with single spaces.
pub open spec fn join_spaces(ws: Seq<Seq<char>>) -> Seq<char>
    decreases ws.len(),
{
    if ws.len() == 0 {
        Seq::empty()
    } else if ws.len() == 1 {
        ws[0]
    } else {
        join_spaces(ws.drop_last()) + " "@ + ws.last()
    }
}

fn join_from(parts: &Vec<String>, from: usize) -> (r: String)
    requires
        from <= parts@.len(),
    ensures
        r@ == join_spaces(parts@.subrange(from as int, parts@.len() as int).map_values(|p: String| p@)),
{
    let mut out = String::new();
    let mut i: usize = from;
    let ghost f = |p: String| p@;
    while i < parts.len()
        invariant
            from <= i <= parts@.len(),
            out@ == join_spaces(parts@.subrange(from as int, i as int).map_values(f)),
            f == (|p: String| p@),
        decreases parts@.len() - i,
    {
        let ghost prev = parts@.subrange(from as int, i as int).map_values(f);
        let ghost next = parts@.subrange(from as int, i + 1).map_values(f);
        assert(next.drop_last() =~= prev);
        if i > from {
            out.append(" ");
        }
        out.append(parts[i].as_str());
        proof {
            if i == from {
                assert(prev =~= Seq::<Seq<char>>::empty());
                assert(out@ =~= next[0]);
            }
        }
        i = i + 1;
    }
    out
}

/// The suffix `px` removed as often as it ends the text.
pub open spec fn strip_px(s: Seq<char>) -> Seq<char>
    decreases s.len(),
{
    if s.len() >= 2 && s[s.len() - 2] == 'p' && s[s.len() - 1] == 'x' {
        strip_px(s.subrange(0, s.len() - 2))
    } else {
        s
    }
}

fn strip_px_suffix(s: &str) -> (r: &str)
    ensures
        r@ == strip_px(s@),
{
    let n = s.unicode_len();
    let mut j: usize = n;
    assert(s@.subrange(0, n as int) =~= s@);
    while j >= 2 && s.get_char(j - 2) == 'p' && s.get_char(j - 1) == 'x'
        invariant
            n == s@.len(),
            j <= n,
            strip_px(s@) == strip_px(s@.subrange(0, j as int)),
        decreases j,
    {
        assert(s@.subrange(0, j as int).subrange(0, j - 2) =~= s@.subrange(0, j - 2));
        j = j - 2;
    }
    s.substring_char(0, j)
}

/// What `move <args>` parses to.
pub open spec fn move_post(r: Command, args: Seq<char>, unknown: Seq<char>) -> bool {
    let parts = words(args);
    if parts.len() == 0 {
        unknown_of(r, unknown)
    } else {
        let p0 = lower_of(parts[0]);
        if p0 == "left"@ {
            r == Command::Move(MoveTarget::Left)
        } else if p0 == "right"@ {
            r == Command::Move(MoveTarget::Right)
        } else if p0 == "up"@ {
            r == Command::Move(MoveTarget::Up)
        } else if p0 == "down"@ {
            r == Command::Move(MoveTarget::Down)
        } else if p0 == "center"@ {
            r == Command::Move(MoveTarget::Center)
        } else if p0 == "scratchpad"@ {
            r == Command::MoveToScratchpad
        } else if p0 == "container"@ || p0 == "window"@ {
            if parts.len() >= 4 && parts[1] == "to"@ && parts[2] == "workspace"@ {
                let ws = join_spaces(parts.subrange(3, parts.len() as int));
                match spec_parse_u32(ws) {
                    Some(n) => r == Command::MoveToWorkspace(WorkspaceTarget::Number(n)),
                    None => r matches Command::MoveToWorkspace(WorkspaceTarget::Name(s)) && s@ == ws,
                }
            } else {
                unknown_of(r, unknown)
            }
        } else if p0 == "position"@ {
            if parts.len() >= 3 && spec_parse_i32(parts[1]) is Some && spec_parse_i32(parts[2]) is Some {
                r == Command::Move(MoveTarget::Position(spec_parse_i32(parts[1])->0, spec_parse_i32(parts[2])->0))
            } else {
                unknown_of(r, unknown)
            }
        } else {
            unknown_of(r, unknown)
        }
    }
}

/// The resize operation a lowercased word names.
pub open spec fn resize_op_of(w: Seq<char>) -> Option<ResizeOp> {
    if w == "grow"@ {
        Some(ResizeOp::Grow)
    } else if w == "shrink"@ {
        Some(ResizeOp::Shrink)
    } else if w == "set"@ {
        Some(ResizeOp::SetTo)
    } else {
        None
    }
}

/// The resize direction a lowercased word names, given the operation.
pub open spec fn resize_dir_of(w: Seq<char>, op: ResizeOp) -> Option<ResizeDirection> {
    if w == "width"@ {
        Some(ResizeDirection::Width(op))
    } else if w == "height"@ {
        Some(ResizeDirection::Height(op))
    } else if w == "left"@ {
        Some(ResizeDirection::Left)
    } else if w == "right"@ {
        Some(ResizeDirection::Right)
    } else if w == "up"@ {
        Some(ResizeDirection::Up)
    } else if w == "down"@ {
        Some(ResizeDirection::Down)
    } else {
        None
    }
}

/// What `resize <args>` parses to; the amount defaults to 10.
pub open spec fn resize_post(r: Command, args: Seq<char>, unknown: Seq<char>) -> bool {
    let parts = words(args);
    if parts.len() < 2 {
        unknown_of(r, unknown)
    } else {
        match resize_op_of(lower_of(parts[0])) {
            None => unknown_of(r, unknown),
            Some(op) => match resize_dir_of(lower_of(parts[1]), op) {
                None => unknown_of(r, unknown),
                Some(dir) => {
                    let amount: i32 = if parts.len() >= 3 {
                        match spec_parse_i32(strip_px(parts[2])) {
                            Some(a) => a,
                            None => 10,
                        }
                    } else {
                        10
                    };
                    r == Command::Resize(dir, amount)
                },
            },
        }
    }
}

/// What a command line parses to, given its trimmed text, its first word
/// lowercased, the trimmed rest, and the rest lowercased.
pub open spec fn parse_post(r: Command, text: Seq<char>, cmd: Seq<char>, args: Seq<char>, args_l: Seq<char>) -> bool {
    if cmd == "exec"@ {
        r matches Command::Exec(a) && a@ == args
    } else if cmd == "exec_always"@ {
        r matches Command::ExecAlways(a) && a@ == args
    } else if cmd == "kill"@ {
        r == Command::Kill
    } else if cmd == "focus"@ {
        if args_l == "left"@ {
            r == Command::Focus(FocusTarget::Left)
        } else if args_l == "right"@ {
            r == Command::Focus(FocusTarget::Right)
        } else if args_l == "up"@ {
            r == Command::Focus(FocusTarget::Up)
        } else if args_l == "down"@ {
            r == Command::Focus(FocusTarget::Down)
        } else if args_l == "parent"@ {
            r == Command::Focus(FocusTarget::Parent)
        } else if args_l == "child"@ {
            r == Command::Focus(FocusTarget::Child)
        } else if args_l == "mode_toggle"@ {
            r == Command::Focus(FocusTarget::ModeToggle)
        } else {
            unknown_of(r, text)
        }
    } else if cmd == "move"@ {
        move_post(r, args, text)
    } else if cmd == "floating"@ {
        match toggle_of(args_l) {
            Some(t) => r == Command::Floating(t),
            None => unknown_of(r, text),
        }
    } else if cmd == "fullscreen"@ {
        match toggle_of(args_l) {
            Some(t) => r == Command::Fullscreen(t),
            None => unknown_of(r, text),
        }
    } else if cmd == "split"@ {
        if args_l == "horizontal"@ || args_l == "h"@ {
            r == Command::Split(SplitCmd::Horizontal)
        } else if args_l == "vertical"@ || args_l == "v"@ {
            r == Command::Split(SplitCmd::Vertical)
        } else if args_l == "toggle"@ || args_l == "t"@ {
            r == Command::Split(SplitCmd::Toggle)
        } else if args_l == "none"@ || args_l == "n"@ {
            r == Command::Split(SplitCmd::NoSplit)
        } else {
            unknown_of(r, text)
        }
    } else if cmd == "layout"@ {
        if args_l == "default"@ {
            r == Command::Layout(LayoutCmd::Default)
        } else if args_l == "tabbed"@ {
            r == Command::Layout(LayoutCmd::Tabbed)
        } else if args_l == "stacked"@ || args_l == "stacking"@ {
            r == Command::Layout(LayoutCmd::Stacked)
        } else if args_l == "splitv"@ {
            r == Command::Layout(LayoutCmd::SplitV)
        } else if args_l == "splith"@ {
            r == Command::Layout(LayoutCmd::SplitH)
        } else if args_l == "toggle"@ {
            r == Command::Layout(LayoutCmd::Toggle)
        } else if args_l == "toggle split"@ {
            r == Command::Layout(LayoutCmd::ToggleSplit)
        } else if args_l == "toggle all"@ {
            r == Command::Layout(LayoutCmd::ToggleAll)
        } else {
            unknown_of(r, text)
        }
    } else if cmd == "workspace"@ {
        r matches Command::Workspace(t) && workspace_target_post(t, args, args_l)
    } else if cmd == "scratchpad"@ {
        if args_l == "show"@ {
            r == Command::ScratchpadShow
        } else {
            unknown_of(r, text)
        }
    } else if cmd == "mark"@ {
        r matches Command::Mark(a) && a@ == args
    } else if cmd == "unmark"@ {
        if args.len() == 0 {
            r == Command::Unmark(None)
        } else {
            r matches Command::Unmark(Some(a)) && a@ == args
        }
    } else if cmd == "mode"@ {
        r matches Command::Mode(a) && a@ == args
    } else if cmd == "reload"@ {
        r == Command::Reload
    } else if cmd == "restart"@ {
        r == Command::Restart
    } else if cmd == "exit"@ {
        r == Command::Exit
    } else if cmd == "resize"@ {
        resize_post(r, args, text)
    } else {
        unknown_of(r, text)
    }
}

/// The parts of a command line: trimmed text, first word lowercased, rest trimmed.
pub open spec fn line_parts(s: Seq<char>) -> (Seq<char>, Seq<char>, Seq<char>) {
    let t = trim_seq(s);
    let sp = split_first_space(t);
    let args = match sp.1 {
        Some(rest) => trim_seq(rest),
        None => Seq::empty(),
    };
    (t, lower_of(sp.0), args)
}

impl Command {
    /// Parse a command line. Never fails: what is not understood becomes
    /// `Unknown` with the trimmed text.
    pub fn parse(s: &str) -> (r: Self)
        ensures
            ({
                let (t, cmd, args) = line_parts(s@);
                parse_post(r, t, cmd, args, lower_of(args))
            }),
    {
        let t = trim(s);
        let (head, rest) = split_once_space(t);
        let cmd = lowercase(head);
        let args: &str = match rest {
            Some(r) => trim(r),
            None => "",
        };
        proof {
            if rest is None {
                reveal_strlit("");
                assert(args@ =~= Seq::<char>::empty());
            }
        }
        let args_l = lowercase(args);
        Self::parse_parts(t, cmd.as_str(), args, args_l.as_str())
    }

    /// Parse a command line from its parts: the trimmed text, the first word
    /// lowercased, the trimmed rest, and the rest lowercased.
    pub fn parse_parts(text: &str, cmd: &str, args: &str, args_l: &str) -> (r: Self)
        ensures
            parse_post(r, text@, cmd@, args@, args_l@),
    {
        let unknown = Command::Unknown(text.to_owned());
        if str_eq(cmd, "exec") {
            Command::Exec(args.to_owned())
        } else if str_eq(cmd, "exec_always") {
            Command::ExecAlways(args.to_owned())
        } else if str_eq(cmd, "kill") {
            Command::Kill
        } else if str_eq(cmd, "focus") {
            if str_eq(args_l, "left") {
                Command::Focus(FocusTarget::Left)
            } else if str_eq(args_l, "right") {
                Command::Focus(FocusTarget::Right)
            } else if str_eq(args_l, "up") {
                Command::Focus(FocusTarget::Up)
            } else if str_eq(args_l, "down") {
                Command::Focus(FocusTarget::Down)
            } else if str_eq(args_l, "parent") {
                Command::Focus(FocusTarget::Parent)
            } else if str_eq(args_l, "child") {
                Command::Focus(FocusTarget::Child)
            } else if str_eq(args_l, "mode_toggle") {
                Command::Focus(FocusTarget::ModeToggle)
            } else {
                unknown
            }
        } else if str_eq(cmd, "move") {
            Self::parse_move_or(args, text)
        } else if str_eq(cmd, "floating") {
            match parse_toggle(args_l) {
                Some(t) => Command::Floating(t),
                None => unknown,
            }
        } else if str_eq(cmd, "fullscreen") {
            match parse_toggle(args_l) {
                Some(t) => Command::Fullscreen(t),
                None => unknown,
            }
        } else if str_eq(cmd, "split") {
            if str_eq(args_l, "horizontal") || str_eq(args_l, "h") {
                Command::Split(SplitCmd::Horizontal)
            } else if str_eq(args_l, "vertical") || str_eq(args_l, "v") {
                Command::Split(SplitCmd::Vertical)
            } else if str_eq(args_l, "toggle") || str_eq(args_l, "t") {
                Command::Split(SplitCmd::Toggle)
            } else if str_eq(args_l, "none") || str_eq(args_l, "n") {
                Command::Split(SplitCmd::NoSplit)
            } else {
                unknown
            }
        } else if str_eq(cmd, "layout") {
            if str_eq(args_l, "default") {
                Command::Layout(LayoutCmd::Default)
            } else if str_eq(args_l, "tabbed") {
                Command::Layout(LayoutCmd::Tabbed)
            } else if str_eq(args_l, "stacked") || str_eq(args_l, "stacking") {
                Command::Layout(LayoutCmd::Stacked)
            } else if str_eq(args_l, "splitv") {
                Command::Layout(LayoutCmd::SplitV)
            } else if str_eq(args_l, "splith") {
                Command::Layout(LayoutCmd::SplitH)
            } else if str_eq(args_l, "toggle") {
                Command::Layout(LayoutCmd::Toggle)
            } else if str_eq(args_l, "toggle split") {
                Command::Layout(LayoutCmd::ToggleSplit)
            } else if str_eq(args_l, "toggle all") {
                Command::Layout(LayoutCmd::ToggleAll)
            } else {
                unknown
            }
        } else if str_eq(cmd, "workspace") {
            Command::Workspace(parse_workspace_target(args, args_l))
        } else if str_eq(cmd, "scratchpad") {
            if str_eq(args_l, "show") {
                Command::ScratchpadShow
            } else {
                unknown
            }
        } else if str_eq(cmd, "mark") {
            Command::Mark(args.to_owned())
        } else if str_eq(cmd, "unmark") {
            if args.unicode_len() == 0 {
                Command::Unmark(None)
            } else {
                Command::Unmark(Some(args.to_owned()))
            }
        } else if str_eq(cmd, "mode") {
            Command::Mode(args.to_owned())
        } else if str_eq(cmd, "reload") {
            Command::Reload
        } else if str_eq(cmd, "restart") {
            Command::Restart
        } else if str_eq(cmd, "exit") {
            Command::Exit
        } else if str_eq(cmd, "resize") {
            Self::parse_resize_or(args, text)
        } else {
            unknown
        }
    }

    /// Parse the arguments of `move`; what is not understood becomes
    /// `Unknown("move <args>")`.
    pub fn parse_move(args: &str) -> (r: Self)
        ensures
            move_post(r, args@, "move "@ + args@),
    {
        let text = "move ".to_owned().concat(args);
        Self::parse_move_or(args, text.as_str())
    }

    /// Parse the arguments of `move`; what is not understood becomes
    /// `Unknown(unknown_text)`.
    fn parse_move_or(args: &str, unknown_text: &str) -> (r: Self)
        ensures
            move_post(r, args@, unknown_text@),
    {
        let parts = words_of(args);
        let unknown = Command::Unknown(unknown_text.to_owned());
        if parts.len() == 0 {
            return unknown;
        }
        let p0 = lowercase(parts[0].as_str());
        let p0 = p0.as_str();
        if str_eq(p0, "left") {
            Command::Move(MoveTarget::Left)
        } else if str_eq(p0, "right") {
            Command::Move(MoveTarget::Right)
        } else if str_eq(p0, "up") {
            Command::Move(MoveTarget::Up)
        } else if str_eq(p0, "down") {
            Command::Move(MoveTarget::Down)
        } else if str_eq(p0, "center") {
            Command::Move(MoveTarget::Center)
        } else if str_eq(p0, "scratchpad") {
            Command::MoveToScratchpad
        } else if str_eq(p0, "container") || str_eq(p0, "window") {
            if parts.len() >= 4 && str_eq(parts[1].as_str(), "to") && str_eq(parts[2].as_str(), "workspace") {
                let ws = join_from(&parts, 3);
                proof {
                    let w = words(args@);
                    assert(parts@.subrange(3, parts@.len() as int).map_values(|p: String| p@) =~= w.subrange(3, w.len() as int));
                }
                match parse_u32(ws.as_str()) {
                    Some(n) => Command::MoveToWorkspace(WorkspaceTarget::Number(n)),
                    None => Command::MoveToWorkspace(WorkspaceTarget::Name(ws)),
                }
            } else {
                unknown
            }
        } else if str_eq(p0, "position") {
            if parts.len() >= 3 {
                match (parse_i32(parts[1].as_str()), parse_i32(parts[2].as_str())) {
                    (Some(x), Some(y)) => Command::Move(MoveTarget::Position(x, y)),
                    _ => unknown,
                }
            } else {
                unknown
            }
        } else {
            unknown
        }
    }

    /// Parse the arguments of `resize`; what is not understood becomes
    /// `Unknown("resize <args>")`.
    pub fn parse_resize(args: &str) -> (r: Self)
        ensures
            resize_post(r, args@, "resize "@ + args@),
    {
        let text = "resize ".to_owned().concat(args);
        Self::parse_resize_or(args, text.as_str())
    }

    /// Parse the arguments of `resize`; what is not understood becomes
    /// `Unknown(unknown_text)`.
    fn parse_resize_or(args: &str, unknown_text: &str) -> (r: Self)
        ensures
            resize_post(r, args@, unknown_text@),
    {
        let parts = words_of(args);
        let unknown = Command::Unknown(unknown_text.to_owned());
        if parts.len() < 2 {
            return unknown;
        }
        let w0 = lowercase(parts[0].as_str());
        let w0 = w0.as_str();
        let op = if str_eq(w0, "grow") {
            ResizeOp::Grow
        } else if str_eq(w0, "shrink") {
            ResizeOp::Shrink
        } else if str_eq(w0, "set") {
            ResizeOp::SetTo
        } else {
            return unknown;
        };
        let w1 = lowercase(parts[1].as_str());
        let w1 = w1.as_str();
        let direction = if str_eq(w1, "width") {
            ResizeDirection::Width(op)
        } else if str_eq(w1, "height") {
            ResizeDirection::Height(op)
        } else if str_eq(w1, "left") {
            ResizeDirection::Left
        } else if str_eq(w1, "right") {
            ResizeDirection::Right
        } else if str_eq(w1, "up") {
            ResizeDirection::Up
        } else if str_eq(w1, "down") {
            ResizeDirection::Down
        } else {
            return unknown;
        };
        let amount: i32 = if parts.len() >= 3 {
            match parse_i32(strip_px_suffix(parts[2].as_str())) {
                Some(a) => a,
                None => 10,
            }
        } else {
            10
        };
        Command::Resize(direction, amount)
    }
}

/// A binding mode (like resize mode in i3): key and mouse bindings by name.
#[derive(Debug, Clone)]
pub struct BindingMode {
    pub name: String,
    /// Key bindings; each binding occurs once.
    pub bindings: Vec<(KeyBinding, Command)>,
    /// Mouse bindings; each binding occurs once.
    pub mouse_bindings: Vec<(MouseBinding, Command)>,
}

/// Index of the entry for key binding `k`.
pub open spec fn binding_index(bs: Seq<(KeyBinding, Command)>, k: KeyBinding) -> Option<int> {
    if exists|i: int| 0 <= i < bs.len() && bs[i].0 == k {
        Some(choose|i: int| 0 <= i < bs.len() && bs[i].0 == k)
    } else {
        None
    }
}

fn find_key_binding(bs: &Vec<(KeyBinding, Command)>, k: KeyBinding) -> (r: Option<usize>)
    ensures
        match r {
            Some(i) => i < bs@.len() && bs@[i as int].0 == k,
            None => forall|j: int| 0 <= j < bs@.len() ==> bs@[j].0 != k,
        },
{
    let mut i: usize = 0;
    while i < bs.len()
        invariant
            i <= bs@.len(),
            forall|j: int| 0 <= j < i ==> bs@[j].0 != k,
        decreases bs@.len() - i,
    {
        if bs[i].0 == k {
            return Some(i);
        }
        i = i + 1;
    }
    None
}

fn find_mouse_binding(bs: &Vec<(MouseBinding, Command)>, k: MouseBinding) -> (r: Option<usize>)
    ensures
        match r {
            Some(i) => i < bs@.len() && bs@[i as int].0 == k,
            None => forall|j: int| 0 <= j < bs@.len() ==> bs@[j].0 != k,
        },
{
    let mut i: usize = 0;
    while i < bs.len()
        invariant
            i <= bs@.len(),
            forall|j: int| 0 <= j < i ==> bs@[j].0 != k,
        decreases bs@.len() - i,
    {
        if bs[i].0 == k {
            return Some(i);
        }
        i = i + 1;
    }
    None
}

impl BindingMode {
    pub open spec fn wf(&self) -> bool {
        &&& forall|i: int, j: int| 0 <= i < self.bindings@.len() && 0 <= j < self.bindings@.len() && i != j
            ==> self.bindings@[i].0 != self.bindings@[j].0
        &&& forall|i: int, j: int| 0 <= i < self.mouse_bindings@.len() && 0 <= j < self.mouse_bindings@.len() && i != j
            ==> self.mouse_bindings@[i].0 != self.mouse_bindings@[j].0
    }

    /// The command bound to a key binding.
    pub open spec fn command_for(&self, k: KeyBinding) -> Option<Command> {
        match binding_index(self.bindings@, k) {
            Some(i) => Some(self.bindings@[i].1),
            None => None,
        }
    }

    pub fn new(name: String) -> (r: Self)
        ensures
            r.wf(),
            r.name@ == name@,
            r.bindings@.len() == 0,
            r.mouse_bindings@.len() == 0,
    {
        BindingMode { name, bindings: Vec::new(), mouse_bindings: Vec::new() }
    }

    /// Bind a command to a key binding, replacing what it was bound to.
    pub fn add_binding(&mut self, binding: KeyBinding, command: Command)
        requires
            old(self).wf(),
        ensures
            final(self).wf(),
            final(self).name == old(self).name,
            final(self).mouse_bindings == old(self).mouse_bindings,
            final(self).command_for(binding) == Some(command),
            forall|k: KeyBinding| k != binding ==> final(self).command_for(k) == old(self).command_for(k),
    {
        let ghost b0 = self.bindings@;
        let i: usize = match find_key_binding(&self.bindings, binding) {
            Some(i) => {
                self.bindings.set(i, (binding, command));
                i
            },
            None => {
                self.bindings.push((binding, command));
                self.bindings.len() - 1
            },
        };
        proof {
            let bs = self.bindings@;
            assert(bs[i as int].0 == binding);
            assert forall|a: int, b: int| 0 <= a < bs.len() && 0 <= b < bs.len() && a != b implies bs[a].0 != bs[b].0 by {
                if a != i && b != i {
                    assert(bs[a] == b0[a] && bs[b] == b0[b]);
                }
            }
            let c = choose|j: int| 0 <= j < bs.len() && bs[j].0 == binding;
            assert(c == i);
            assert(binding_index(bs, binding) == Some(i as int));
            assert forall|k: KeyBinding| k != binding implies self.command_for(k) == old(self).command_for(k) by {
                if binding_index(b0, k) is Some {
                    let j = binding_index(b0, k)->0;
                    assert(bs[j] == b0[j]);
                    let c2 = choose|x: int| 0 <= x < bs.len() && bs[x].0 == k;
                    assert(c2 == j);
                    assert(binding_index(bs, k) == Some(j));
                }
                if binding_index(bs, k) is Some {
                    let j = binding_index(bs, k)->0;
                    assert(j != i);
                    assert(b0[j].0 == k);
                }
            }
        }
    }

    /// Bind a command to a mouse binding, replacing what it was bound to.
    pub fn add_mouse_binding(&mut self, binding: MouseBinding, command: Command)
        requires
            old(self).wf(),
        ensures
            final(self).wf(),
            final(self).name == old(self).name,
            final(self).bindings == old(self).bindings,
            exists|i: int| 0 <= i < final(self).mouse_bindings@.len() && final(self).mouse_bindings@[i] == (binding, command),
    {
        let ghost b0 = self.mouse_bindings@;
        let i: usize = match find_mouse_binding(&self.mouse_bindings, binding) {
            Some(i) => {
                self.mouse_bindings.set(i, (binding, command));
                i
            },
            None => {
                self.mouse_bindings.push((binding, command));
                self.mouse_bindings.len() - 1
            },
        };
        proof {
            let bs = self.mouse_bindings@;
            assert(bs[i as int] == (binding, command));
            assert forall|a: int, b: int| 0 <= a < bs.len() && 0 <= b < bs.len() && a != b implies bs[a].0 != bs[b].0 by {
                if a != i && b != i {
                    assert(bs[a] == b0[a] && bs[b] == b0[b]);
                }
            }
        }
    }

    /// The command bound to a key binding.
    pub fn lookup(&self, binding: KeyBinding) -> (r: Option<&Command>)
        requires
            self.wf(),
        ensures
            match self.command_for(binding) {
                Some(c) => r == Some(&c),
                None => r is None,
            },
    {
        let mut i: usize = 0;
        while i < self.bindings.len()
            invariant
                self.wf(),
                i <= self.bindings@.len(),
                forall|j: int| 0 <= j < i ==> self.bindings@[j].0 != binding,
            decreases self.bindings@.len() - i,
        {
            if self.bindings[i].0 == binding {
                proof {
                    let c = choose|j: int| 0 <= j < self.bindings@.len() && self.bindings@[j].0 == binding;
                    assert(c == i);
                    assert(binding_index(self.bindings@, binding) == Some(i as int));
                }
                return Some(&self.bindings[i].1);
            }
            i = i + 1;
        }
        None
    }
}

/// Input state: binding modes, the active mode, modifiers, pressed keys.
#[derive(Debug)]
pub struct InputManager {
    pub current_mode: String,
    /// Binding modes; names are unique.
    pub modes: Vec<BindingMode>,
    pub modifiers: Modifiers,
    pub pressed_keys: Vec<KeyCode>,
    pub pressed_buttons: Vec<MouseButton>,
}

/// Index of the mode with this name.
pub open spec fn mode_index(ms: Seq<BindingMode>, name: Seq<char>) -> Option<int> {
    if exists|i: int| 0 <= i < ms.len() && ms[i].name@ == name {
        Some(choose|i: int| 0 <= i < ms.len() && ms[i].name@ == name)
    } else {
        None
    }
}

impl InputManager {
    pub open spec fn wf(&self) -> bool {
        &&& forall|i: int| 0 <= i < self.modes@.len() ==> (#[trigger] self.modes@[i]).wf()
        &&& forall|i: int, j: int| 0 <= i < self.modes@.len() && 0 <= j < self.modes@.len() && i != j
            ==> self.modes@[i].name@ != self.modes@[j].name@
    }

    pub open spec fn has_mode(&self, name: Seq<char>) -> bool {
        exists|i: int| 0 <= i < self.modes@.len() && self.modes@[i].name@ == name
    }

    /// One empty mode, "default", which is active; no modifiers or keys held.
    pub fn new() -> (r: Self)
        ensures
            r.wf(),
            r.current_mode@ == "default"@,
            r.modes@.len() == 1,
            r.modes@[0].name@ == "default"@,
            r.modes@[0].bindings@.len() == 0,
            r.modifiers.bits == 0,
            r.pressed_keys@.len() == 0,
            r.pressed_buttons@.len() == 0,
    {
        let mut modes: Vec<BindingMode> = Vec::new();
        modes.push(BindingMode::new("default".to_owned()));
        InputManager {
            current_mode: "default".to_owned(),
            modes,
            modifiers: Modifiers::empty(),
            pressed_keys: Vec::new(),
            pressed_buttons: Vec::new(),
        }
    }

    fn find_mode(&self, name: &str) -> (r: Option<usize>)
        requires
            self.wf(),
        ensures
            match r {
                Some(i) => i < self.modes@.len() && self.modes@[i as int].name@ == name@
                    && mode_index(self.modes@, name@) == Some(i as int),
                None => !self.has_mode(name@) && mode_index(self.modes@, name@) is None,
            },
    {
        let mut i: usize = 0;
        while i < self.modes.len()
            invariant
                self.wf(),
                i <= self.modes@.len(),
                forall|j: int| 0 <= j < i ==> self.modes@[j].name@ != name@,
            decreases self.modes@.len() - i,
        {
            if str_eq(self.modes[i].name.as_str(), name) {
                proof {
                    let c = choose|j: int| 0 <= j < self.modes@.len() && self.modes@[j].name@ == name@;
                    assert(c == i);
                }
                return Some(i);
            }
            i = i + 1;
        }
        None
    }

    /// Load key bindings from configuration: each one whose keys parse is
    /// bound, in its mode (created when new), to its parsed command.
    pub fn load_bindings(&mut self, bindings: &[BindingConfig])
        requires
            old(self).wf(),
        ensures
            final(self).wf(),
            final(self).current_mode == old(self).current_mode,
            final(self).modifiers == old(self).modifiers,
            forall|n: Seq<char>| old(self).has_mode(n) ==> final(self).has_mode(n),
            forall|i: int| 0 <= i < bindings@.len() && (#[trigger] KeyBinding::parse_ok(bindings@[i].keys@))
                ==> final(self).has_mode(bindings@[i].mode@),
            forall|i: int| 0 <= i < bindings@.len() && #[trigger] KeyBinding::parse_ok(bindings@[i].keys@)
                && !superseded(bindings@, i, bindings@.len() as int) ==> match final(self).bound(
                bindings@[i].mode@,
                KeyBinding::spec_parse(bindings@[i].keys@),
            ) {
                Some(c) => command_text_post(c, bindings@[i].command@),
                None => false,
            },
    {
        let mut i: usize = 0;
        while i < bindings.len()
            invariant
                self.wf(),
                i <= bindings@.len(),
                self.current_mode == old(self).current_mode,
                self.modifiers == old(self).modifiers,
                forall|n: Seq<char>| old(self).has_mode(n) ==> self.has_mode(n),
                forall|j: int| 0 <= j < i && (#[trigger] KeyBinding::parse_ok(bindings@[j].keys@))
                    ==> self.has_mode(bindings@[j].mode@),
                forall|j: int| 0 <= j < i && #[trigger] KeyBinding::parse_ok(bindings@[j].keys@)
                    && !superseded(bindings@, j, i as int) ==> match self.bound(
                    bindings@[j].mode@,
                    KeyBinding::spec_parse(bindings@[j].keys@),
                ) {
                    Some(c) => command_text_post(c, bindings@[j].command@),
                    None => false,
                },
            decreases bindings@.len() - i,
        {
            let cfg = &bindings[i];
            let ghost s_before = self.modes@;
            let ghost im0 = *self;
            let parsed = KeyBinding::parse(cfg.keys.as_str());
            if let Ok(key_binding) = parsed {
                let command = Command::parse(cfg.command.as_str());
                let ghost before = self.modes@;
                let k = match self.find_mode(cfg.mode.as_str()) {
                    Some(k) => k,
                    None => {
                        self.modes.push(BindingMode::new(cfg.mode.clone()));
                        proof {
                            let ms = self.modes@;
                            assert forall|a: int, b: int| 0 <= a < ms.len() && 0 <= b < ms.len() && a != b
                                implies ms[a].name@ != ms[b].name@ by {
                                if a < before.len() && b < before.len() {
                                    assert(ms[a] == before[a] && ms[b] == before[b]);
                                }
                            }

                        }
                        self.modes.len() - 1
                    },
                };
                let ghost mid = self.modes@;
                let mut mode = self.modes.remove(k);
                mode.add_binding(key_binding, command);
                self.modes.insert(k, mode);
                proof {
                    let ms = self.modes@;
                    assert(ms.len() == mid.len());
                    assert forall|a: int| 0 <= a < ms.len() implies ms[a].name@ == mid[a].name@ by {}
                    assert forall|a: int| 0 <= a < ms.len() implies (#[trigger] ms[a]).wf() by {
                        if a != k {
                            assert(ms[a] == mid[a]);
                        }
                    }
                    assert forall|n: Seq<char>| (exists|a: int| 0 <= a < mid.len() && mid[a].name@ == n)
                        implies self.has_mode(n) by {
                        let a = choose|a: int| 0 <= a < mid.len() && mid[a].name@ == n;
                        assert(ms[a].name@ == n);
                    }
                    assert(self.modes@[k as int].name@ == cfg.mode@);
                    let kb = KeyBinding::spec_parse(cfg.keys@);
                    assert(key_binding == kb);
                    lemma_mode_index(ms, k as int);
                    assert(self.bound(cfg.mode@, kb) == Some(command));
                    assert forall|n: Seq<char>, b: KeyBinding| !(n == cfg.mode@ && b == kb)
                        implies #[trigger] self.bound(n, b) == im0.bound(n, b) by {
                        if exists|a: int| 0 <= a < before.len() && before[a].name@ == n {
                            let a = choose|a: int| 0 <= a < before.len() && before[a].name@ == n;
                            lemma_mode_index(before, a);
                            assert(ms[a].name@ == n);
                            lemma_mode_index(ms, a);
                            if a != k {
                                assert(ms[a] == mid[a]);
                                assert(mid[a] == before[a]);
                            }
                        } else {
                            assert(mode_index(before, n) is None);
                            if exists|a: int| 0 <= a < ms.len() && ms[a].name@ == n {
                                let a = choose|a: int| 0 <= a < ms.len() && ms[a].name@ == n;
                                lemma_mode_index(ms, a);
                                assert(a == k);
                                assert(mid[k as int].bindings@.len() == 0);
                                assert(mid[k as int].command_for(b) is None);
                            }
                        }
                    }
                }
            }
            proof {
                assert forall|j: int| 0 <= j < i + 1 && #[trigger] KeyBinding::parse_ok(bindings@[j].keys@)
                    && !superseded(bindings@, j, i + 1) implies match self.bound(
                    bindings@[j].mode@,
                    KeyBinding::spec_parse(bindings@[j].keys@),
                ) {
                    Some(c) => command_text_post(c, bindings@[j].command@),
                    None => false,
                } by {
                    if j < i {
                        assert(!superseded(bindings@, j, i as int));
                        if KeyBinding::parse_ok(cfg.keys@) {
                            assert(!(bindings@[j].mode@ == cfg.mode@ && KeyBinding::spec_parse(bindings@[j].keys@)
                                == KeyBinding::spec_parse(cfg.keys@)));
                        }
                    }
                }
                assert forall|n: Seq<char>| (exists|a: int| 0 <= a < s_before.len() && s_before[a].name@ == n)
                    implies self.has_mode(n) by {
                    let a = choose|a: int| 0 <= a < s_before.len() && s_before[a].name@ == n;
                    if parsed is Ok {
                        assert(self.modes@[a].name@ == n);
                    }
                }
                assert forall|n: Seq<char>| old(self).has_mode(n) implies self.has_mode(n) by {
                    assert(exists|a: int| 0 <= a < s_before.len() && s_before[a].name@ == n);
                }
                assert(KeyBinding::parse_ok(cfg.keys@) ==> parsed is Ok);
            }
            i = i + 1;
        }
    }

    /// Record a key press and return the command bound to it, with the
    /// current modifiers, in the current mode.
    pub fn key_pressed(&mut self, key: KeyCode) -> (r: Option<&Command>)
        requires
            old(self).wf(),
        ensures
            final(self).wf(),
            final(self).pressed_keys@ == if old(self).pressed_keys@.contains(key) {
                old(self).pressed_keys@
            } else {
                old(self).pressed_keys@.push(key)
            },
            final(self).modes == old(self).modes,
            final(self).current_mode == old(self).current_mode,
            final(self).modifiers == old(self).modifiers,
            match mode_index(old(self).modes@, old(self).current_mode@) {
                Some(m) => match old(self).modes@[m].command_for(KeyBinding { modifiers: old(self).modifiers, key }) {
                    Some(c) => r == Some(&c),
                    None => r is None,
                },
                None => r is None,
            },
    {
        let mut known = false;
        let mut i: usize = 0;
        while i < self.pressed_keys.len()
            invariant
                i <= self.pressed_keys@.len(),
                known == exists|j: int| 0 <= j < i && self.pressed_keys@[j] == key,
            decreases self.pressed_keys@.len() - i,
        {
            if self.pressed_keys[i] == key {
                known = true;
            }
            i = i + 1;
        }
        if !known {
            self.pressed_keys.push(key);
            assert(self.pressed_keys@[self.pressed_keys@.len() - 1] == key);
        }
        let binding = KeyBinding::new(self.modifiers, key);
        match self.find_mode(self.current_mode.as_str()) {
            Some(m) => self.modes[m].lookup(binding),
            None => None,
        }
    }

    /// Record a raw Linux keycode press; codes without a key give nothing.
    pub fn key_pressed_raw(&mut self, keycode: u32) -> (r: Option<&Command>)
        requires
            old(self).wf(),
        ensures
            final(self).wf(),
            spec_key_of_raw(keycode) is None ==> r is None && *final(self) == *old(self),
            spec_key_of_raw(keycode) matches Some(key) ==> final(self).pressed_keys@ == (if old(self).pressed_keys@.contains(key) {
                old(self).pressed_keys@
            } else {
                old(self).pressed_keys@.push(key)
            })
                && match mode_index(old(self).modes@, old(self).current_mode@) {
                Some(m) => match old(self).modes@[m].command_for(KeyBinding { modifiers: old(self).modifiers, key }) {
                    Some(c) => r == Some(&c),
                    None => r is None,
                },
                None => r is None,
            },
    {
        match key_of_raw(keycode) {
            Some(key) => self.key_pressed(key),
            None => None,
        }
    }

    /// Record a key release.
    pub fn key_released(&mut self, key: KeyCode)
        ensures
            !final(self).pressed_keys@.contains(key),
            forall|k: KeyCode| k != key ==> (final(self).pressed_keys@.contains(k) == old(self).pressed_keys@.contains(k)),
            final(self).modes == old(self).modes,
            final(self).current_mode == old(self).current_mode,
            final(self).modifiers == old(self).modifiers,
    {
        let ghost p0 = self.pressed_keys@;
        let mut out: Vec<KeyCode> = Vec::new();
        let mut i: usize = 0;
        while i < self.pressed_keys.len()
            invariant
                self.pressed_keys@ == p0,
                i <= p0.len(),
                forall|j: int| 0 <= j < out@.len() ==> out@[j] != key && p0.contains(#[trigger] out@[j]),
                forall|j: int| 0 <= j < i && (#[trigger] p0[j]) != key ==> out@.contains(p0[j]),
            decreases p0.len() - i,
        {
            let k = self.pressed_keys[i];
            if k != key {
                let ghost o0 = out@;
                out.push(k);
                proof {
                    assert forall|j: int| 0 <= j < i + 1 && (#[trigger] p0[j]) != key implies out@.contains(p0[j]) by {
                        if j < i {
                            let a = choose|a: int| 0 <= a < o0.len() && o0[a] == p0[j];
                            assert(out@[a] == p0[j]);
                        } else {
                            assert(out@[out@.len() - 1] == p0[j]);
                        }
                    }
                }
            }
            i = i + 1;
        }
        proof {
            assert forall|k: KeyCode| k != key implies (out@.contains(k) == p0.contains(k)) by {
                if p0.contains(k) {
                    let j = choose|j: int| 0 <= j < p0.len() && p0[j] == k;
                    assert(out@.contains(p0[j]));
                }
                if out@.contains(k) {
                    let j = choose|j: int| 0 <= j < out@.len() && out@[j] == k;
                    assert(p0.contains(out@[j]));
                }
            }
            assert(!out@.contains(key)) by {
                if out@.contains(key) {
                    let j = choose|j: int| 0 <= j < out@.len() && out@[j] == key;
                    assert(out@[j] != key);
                }
            }
        }
        self.pressed_keys = out;
    }

    pub fn set_modifiers(&mut self, modifiers: Modifiers)
        ensures
            *final(self) == (InputManager { modifiers, ..*old(self) }),
    {
        self.modifiers = modifiers;
    }

    /// Switch to a binding mode, if one of that name exists.
    pub fn set_mode(&mut self, mode: &str)
        requires
            old(self).wf(),
        ensures
            final(self).wf(),
            old(self).has_mode(mode@) ==> final(self).current_mode@ == mode@,
            !old(self).has_mode(mode@) ==> final(self).current_mode == old(self).current_mode,
            final(self).modes == old(self).modes,
            final(self).modifiers == old(self).modifiers,
    {
        if self.find_mode(mode).is_some() {
            self.current_mode = mode.to_owned();
        }
    }

    pub fn current_mode(&self) -> (r: &str)
        ensures
            r@ == self.current_mode@,
    {
        self.current_mode.as_str()
    }
}

/// The command parsed from a command line, as `Command::parse` gives it.
pub open spec fn command_text_post(c: Command, s: Seq<char>) -> bool {
    let (t, cmd, args) = line_parts(s);
    parse_post(c, t, cmd, args, lower_of(args))
}

/// A later entry (before `upto`) of the same mode binds the same keys.
pub open spec fn superseded(bs: Seq<BindingConfig>, i: int, upto: int) -> bool {
    exists|j: int| i < j < upto && #[trigger] KeyBinding::parse_ok(bs[j].keys@) && bs[j].mode@ == bs[i].mode@
        && KeyBinding::spec_parse(bs[j].keys@) == KeyBinding::spec_parse(bs[i].keys@)
}

pub proof fn lemma_mode_index(ms: Seq<BindingMode>, a: int)
    requires
        0 <= a < ms.len(),
        forall|i: int, j: int| 0 <= i < ms.len() && 0 <= j < ms.len() && i != j ==> ms[i].name@ != ms[j].name@,
    ensures
        mode_index(ms, ms[a].name@) == Some(a),
{
    let c = choose|i: int| 0 <= i < ms.len() && ms[i].name@ == ms[a].name@;
    assert(c == a);
}

impl InputManager {
    /// The command bound to a key binding in the named mode.
    pub open spec fn bound(&self, mode: Seq<char>, k: KeyBinding) -> Option<Command> {
        match mode_index(self.modes@, mode) {
            Some(m) => self.modes@[m].command_for(k),
            None => None,
        }
    }
}

impl KeyBinding {
    /// The binding a binding string that parses stands for.
    pub open spec fn spec_parse(s: Seq<char>) -> KeyBinding {
        KeyBinding {
            modifiers: Modifiers { bits: modifier_bits(lowered_parts(split_on(s, '+'))) },
            key: spec_key_of(lower_of(last_non_modifier(split_on(s, '+'))->0))->0,
        }
    }

    /// The binding string parses.
    pub open spec fn parse_ok(s: Seq<char>) -> bool {
        match last_non_modifier(split_on(s, '+')) {
            Some(k) => spec_key_of(lower_of(k)) is Some,
            None => false,
        }
    }
}

} // verus!
