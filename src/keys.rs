//! The key space: physical keys, their two-layer addressing and their tokens, and
//! the shortcuts built from them.
use vstd::prelude::*;

verus! {

/// Whether the keypad layer is on or off.
#[derive(PartialEq, Eq, Structural, PartialOrd, Ord, Clone, Copy, Hash, Debug)]
pub enum Keypad {
    Off,
    On,
}

impl Keypad {
    /// Position in the sort order: the normal layer first.
    pub open spec fn spec_rank(self) -> int {
        match self {
            Keypad::Off => 0,
            Keypad::On => 1,
        }
    }

    /// Position in the sort order: the normal layer first.
    pub fn rank(self) -> (r: u64)
        ensures
            r == self.spec_rank(),
    {
        match self {
            Keypad::Off => 0,
            Keypad::On => 1,
        }
    }
}

/// The modifier keys, in their fixed sort order.
#[derive(PartialEq, Eq, Structural, PartialOrd, Ord, Clone, Copy, Hash, Debug)]
pub enum Modifier {
    LeftShift,
    RightShift,
    LeftWindowsCommand,
    RightWindowsCommand,
    LeftControl,
    RightControl,
    LeftAlt,
    RightAlt,
}

/// Number of `Modifier` values.
pub const MODIFIER_COUNT: usize = 8;

impl Modifier {
    /// Position of the key in the declaration order, which is also its sort order.
    pub open spec fn spec_rank(self) -> int {
        match self {
            Modifier::LeftShift => 0,
            Modifier::RightShift => 1,
            Modifier::LeftWindowsCommand => 2,
            Modifier::RightWindowsCommand => 3,
            Modifier::LeftControl => 4,
            Modifier::RightControl => 5,
            Modifier::LeftAlt => 6,
            Modifier::RightAlt => 7,
        }
    }

    /// The key at a given position of the declaration order.
    pub open spec fn from_rank(i: int) -> Modifier {
        if i == 0 {
            Modifier::LeftShift
        } else if i == 1 {
            Modifier::RightShift
        } else if i == 2 {
            Modifier::LeftWindowsCommand
        } else if i == 3 {
            Modifier::RightWindowsCommand
        } else if i == 4 {
            Modifier::LeftControl
        } else if i == 5 {
            Modifier::RightControl
        } else if i == 6 {
            Modifier::LeftAlt
        } else {
            Modifier::RightAlt
        }
    }

    /// The rank is in range and names the key back.
    pub proof fn lemma_rank(self)
        ensures
            0 <= self.spec_rank() < 8,
            Modifier::from_rank(self.spec_rank()) == self,
    {
    }

    /// Position of the key in the declaration order.
    pub fn rank(self) -> (r: usize)
        ensures
            r == self.spec_rank(),
    {
        match self {
            Modifier::LeftShift => 0,
            Modifier::RightShift => 1,
            Modifier::LeftWindowsCommand => 2,
            Modifier::RightWindowsCommand => 3,
            Modifier::LeftControl => 4,
            Modifier::RightControl => 5,
            Modifier::LeftAlt => 6,
            Modifier::RightAlt => 7,
        }
    }

    /// The key at position `i` of the declaration order.
    pub fn at_rank(i: usize) -> (r: Modifier)
        requires
            i < MODIFIER_COUNT,
        ensures
            r == Modifier::from_rank(i as int),
            r.spec_rank() == i,
    {
        if i == 0 {
            Modifier::LeftShift
        } else if i == 1 {
            Modifier::RightShift
        } else if i == 2 {
            Modifier::LeftWindowsCommand
        } else if i == 3 {
            Modifier::RightWindowsCommand
        } else if i == 4 {
            Modifier::LeftControl
        } else if i == 5 {
            Modifier::RightControl
        } else if i == 6 {
            Modifier::LeftAlt
        } else {
            Modifier::RightAlt
        }
    }

    /// The key's canonical lowercase token.
    pub open spec fn spec_token(self) -> Seq<char> {
        match self {
            Modifier::LeftShift => "lshift"@,
            Modifier::RightShift => "rshift"@,
            Modifier::LeftWindowsCommand => "lwin"@,
            Modifier::RightWindowsCommand => "rwin"@,
            Modifier::LeftControl => "lctrl"@,
            Modifier::RightControl => "rctrl"@,
            Modifier::LeftAlt => "lalt"@,
            Modifier::RightAlt => "ralt"@,
        }
    }

    /// The key's canonical lowercase token.
    pub fn token(self) -> (r: &'static str)
        ensures
            r@ == self.spec_token(),
    {
        match self {
            Modifier::LeftShift => "lshift",
            Modifier::RightShift => "rshift",
            Modifier::LeftWindowsCommand => "lwin",
            Modifier::RightWindowsCommand => "rwin",
            Modifier::LeftControl => "lctrl",
            Modifier::RightControl => "rctrl",
            Modifier::LeftAlt => "lalt",
            Modifier::RightAlt => "ralt",
        }
    }
}

/// The non-modifier keys, in their fixed sort order.
#[derive(PartialEq, Eq, Structural, PartialOrd, Ord, Clone, Copy, Hash, Debug)]
pub enum NonModifier {
    F1,
    F2,
    F3,
    F4,
    F5,
    F6,
    F7,
    F8,
    F9,
    F10,
    F11,
    F12,
    One,
    Two,
    Three,
    Four,
    Five,
    Six,
    Seven,
    Eight,
    Nine,
    Zero,
    Backtick,
    Hyphen,
    Equals,
    A,
    B,
    C,
    D,
    E,
    F,
    G,
    H,
    I,
    J,
    K,
    L,
    M,
    N,
    O,
    P,
    Q,
    R,
    S,
    T,
    U,
    V,
    W,
    X,
    Y,
    Z,
    BackSlash,
    SemiColon,
    Quote,
    Comma,
    FullStop,
    ForwardSlash,
    OpenBracket,
    CloseBracket,
    Enter,
    PageUp,
    Tab,
    PageDown,
    Space,
    LeftArrow,
    Delete,
    RightArrow,
    Backspace,
    UpArrow,
    Insert,
    DownArrow,
    Home,
    End,
    CapsLock,
    International,
}

/// Number of `NonModifier` values.
pub const NONMODIFIER_COUNT: usize = 75;

impl NonModifier {
    /// Position of the key in the declaration order, which is also its sort order.
    pub open spec fn spec_rank(self) -> int {
        match self {
            NonModifier::F1 => 0,
            NonModifier::F2 => 1,
            NonModifier::F3 => 2,
            NonModifier::F4 => 3,
            NonModifier::F5 => 4,
            NonModifier::F6 => 5,
            NonModifier::F7 => 6,
            NonModifier::F8 => 7,
            NonModifier::F9 => 8,
            NonModifier::F10 => 9,
            NonModifier::F11 => 10,
            NonModifier::F12 => 11,
            NonModifier::One => 12,
            NonModifier::Two => 13,
            NonModifier::Three => 14,
            NonModifier::Four => 15,
            NonModifier::Five => 16,
            NonModifier::Six => 17,
            NonModifier::Seven => 18,
            NonModifier::Eight => 19,
            NonModifier::Nine => 20,
            NonModifier::Zero => 21,
            NonModifier::Backtick => 22,
            NonModifier::Hyphen => 23,
            NonModifier::Equals => 24,
            NonModifier::A => 25,
            NonModifier::B => 26,
            NonModifier::C => 27,
            NonModifier::D => 28,
            NonModifier::E => 29,
            NonModifier::F => 30,
            NonModifier::G => 31,
            NonModifier::H => 32,
            NonModifier::I => 33,
            NonModifier::J => 34,
            NonModifier::K => 35,
            NonModifier::L => 36,
            NonModifier::M => 37,
            NonModifier::N => 38,
            NonModifier::O => 39,
            NonModifier::P => 40,
            NonModifier::Q => 41,
            NonModifier::R => 42,
            NonModifier::S => 43,
            NonModifier::T => 44,
            NonModifier::U => 45,
            NonModifier::V => 46,
            NonModifier::W => 47,
            NonModifier::X => 48,
            NonModifier::Y => 49,
            NonModifier::Z => 50,
            NonModifier::BackSlash => 51,
            NonModifier::SemiColon => 52,
            NonModifier::Quote => 53,
            NonModifier::Comma => 54,
            NonModifier::FullStop => 55,
            NonModifier::ForwardSlash => 56,
            NonModifier::OpenBracket => 57,
            NonModifier::CloseBracket => 58,
            NonModifier::Enter => 59,
            NonModifier::PageUp => 60,
            NonModifier::Tab => 61,
            NonModifier::PageDown => 62,
            NonModifier::Space => 63,
            NonModifier::LeftArrow => 64,
            NonModifier::Delete => 65,
            NonModifier::RightArrow => 66,
            NonModifier::Backspace => 67,
            NonModifier::UpArrow => 68,
            NonModifier::Insert => 69,
            NonModifier::DownArrow => 70,
            NonModifier::Home => 71,
            NonModifier::End => 72,
            NonModifier::CapsLock => 73,
            NonModifier::International => 74,
        }
    }

    /// The key at a given position of the declaration order.
    pub open spec fn from_rank(i: int) -> NonModifier {
        if i == 0 {
            NonModifier::F1
        } else if i == 1 {
            NonModifier::F2
        } else if i == 2 {
            NonModifier::F3
        } else if i == 3 {
            NonModifier::F4
        } else if i == 4 {
            NonModifier::F5
        } else if i == 5 {
            NonModifier::F6
        } else if i == 6 {
            NonModifier::F7
        } else if i == 7 {
            NonModifier::F8
        } else if i == 8 {
            NonModifier::F9
        } else if i == 9 {
            NonModifier::F10
        } else if i == 10 {
            NonModifier::F11
        } else if i == 11 {
            NonModifier::F12
        } else if i == 12 {
            NonModifier::One
        } else if i == 13 {
            NonModifier::Two
        } else if i == 14 {
            NonModifier::Three
        } else if i == 15 {
            NonModifier::Four
        } else if i == 16 {
            NonModifier::Five
        } else if i == 17 {
            NonModifier::Six
        } else if i == 18 {
            NonModifier::Seven
        } else if i == 19 {
            NonModifier::Eight
        } else if i == 20 {
            NonModifier::Nine
        } else if i == 21 {
            NonModifier::Zero
        } else if i == 22 {
            NonModifier::Backtick
        } else if i == 23 {
            NonModifier::Hyphen
        } else if i == 24 {
            NonModifier::Equals
        } else if i == 25 {
            NonModifier::A
        } else if i == 26 {
            NonModifier::B
        } else if i == 27 {
            NonModifier::C
        } else if i == 28 {
            NonModifier::D
        } else if i == 29 {
            NonModifier::E
        } else if i == 30 {
            NonModifier::F
        } else if i == 31 {
            NonModifier::G
        } else if i == 32 {
            NonModifier::H
        } else if i == 33 {
            NonModifier::I
        } else if i == 34 {
            NonModifier::J
        } else if i == 35 {
            NonModifier::K
        } else if i == 36 {
            NonModifier::L
        } else if i == 37 {
            NonModifier::M
        } else if i == 38 {
            NonModifier::N
        } else if i == 39 {
            NonModifier::O
        } else if i == 40 {
            NonModifier::P
        } else if i == 41 {
            NonModifier::Q
        } else if i == 42 {
            NonModifier::R
        } else if i == 43 {
            NonModifier::S
        } else if i == 44 {
            NonModifier::T
        } else if i == 45 {
            NonModifier::U
        } else if i == 46 {
            NonModifier::V
        } else if i == 47 {
            NonModifier::W
        } else if i == 48 {
            NonModifier::X
        } else if i == 49 {
            NonModifier::Y
        } else if i == 50 {
            NonModifier::Z
        } else if i == 51 {
            NonModifier::BackSlash
        } else if i == 52 {
            NonModifier::SemiColon
        } else if i == 53 {
            NonModifier::Quote
        } else if i == 54 {
            NonModifier::Comma
        } else if i == 55 {
            NonModifier::FullStop
        } else if i == 56 {
            NonModifier::ForwardSlash
        } else if i == 57 {
            NonModifier::OpenBracket
        } else if i == 58 {
            NonModifier::CloseBracket
        } else if i == 59 {
            NonModifier::Enter
        } else if i == 60 {
            NonModifier::PageUp
        } else if i == 61 {
            NonModifier::Tab
        } else if i == 62 {
            NonModifier::PageDown
        } else if i == 63 {
            NonModifier::Space
        } else if i == 64 {
            NonModifier::LeftArrow
        } else if i == 65 {
            NonModifier::Delete
        } else if i == 66 {
            NonModifier::RightArrow
        } else if i == 67 {
            NonModifier::Backspace
        } else if i == 68 {
            NonModifier::UpArrow
        } else if i == 69 {
            NonModifier::Insert
        } else if i == 70 {
            NonModifier::DownArrow
        } else if i == 71 {
            NonModifier::Home
        } else if i == 72 {
            NonModifier::End
        } else if i == 73 {
            NonModifier::CapsLock
        } else {
            NonModifier::International
        }
    }

    /// The rank is in range and names the key back.
    pub proof fn lemma_rank(self)
        ensures
            0 <= self.spec_rank() < 75,
            NonModifier::from_rank(self.spec_rank()) == self,
    {
    }

    /// Position of the key in the declaration order.
    pub fn rank(self) -> (r: usize)
        ensures
            r == self.spec_rank(),
    {
        match self {
            NonModifier::F1 => 0,
            NonModifier::F2 => 1,
            NonModifier::F3 => 2,
            NonModifier::F4 => 3,
            NonModifier::F5 => 4,
            NonModifier::F6 => 5,
            NonModifier::F7 => 6,
            NonModifier::F8 => 7,
            NonModifier::F9 => 8,
            NonModifier::F10 => 9,
            NonModifier::F11 => 10,
            NonModifier::F12 => 11,
            NonModifier::One => 12,
            NonModifier::Two => 13,
            NonModifier::Three => 14,
            NonModifier::Four => 15,
            NonModifier::Five => 16,
            NonModifier::Six => 17,
            NonModifier::Seven => 18,
            NonModifier::Eight => 19,
            NonModifier::Nine => 20,
            NonModifier::Zero => 21,
            NonModifier::Backtick => 22,
            NonModifier::Hyphen => 23,
            NonModifier::Equals => 24,
            NonModifier::A => 25,
            NonModifier::B => 26,
            NonModifier::C => 27,
            NonModifier::D => 28,
            NonModifier::E => 29,
            NonModifier::F => 30,
            NonModifier::G => 31,
            NonModifier::H => 32,
            NonModifier::I => 33,
            NonModifier::J => 34,
            NonModifier::K => 35,
            NonModifier::L => 36,
            NonModifier::M => 37,
            NonModifier::N => 38,
            NonModifier::O => 39,
            NonModifier::P => 40,
            NonModifier::Q => 41,
            NonModifier::R => 42,
            NonModifier::S => 43,
            NonModifier::T => 44,
            NonModifier::U => 45,
            NonModifier::V => 46,
            NonModifier::W => 47,
            NonModifier::X => 48,
            NonModifier::Y => 49,
            NonModifier::Z => 50,
            NonModifier::BackSlash => 51,
            NonModifier::SemiColon => 52,
            NonModifier::Quote => 53,
            NonModifier::Comma => 54,
            NonModifier::FullStop => 55,
            NonModifier::ForwardSlash => 56,
            NonModifier::OpenBracket => 57,
            NonModifier::CloseBracket => 58,
            NonModifier::Enter => 59,
            NonModifier::PageUp => 60,
            NonModifier::Tab => 61,
            NonModifier::PageDown => 62,
            NonModifier::Space => 63,
            NonModifier::LeftArrow => 64,
            NonModifier::Delete => 65,
            NonModifier::RightArrow => 66,
            NonModifier::Backspace => 67,
            NonModifier::UpArrow => 68,
            NonModifier::Insert => 69,
            NonModifier::DownArrow => 70,
            NonModifier::Home => 71,
            NonModifier::End => 72,
            NonModifier::CapsLock => 73,
            NonModifier::International => 74,
        }
    }

    /// The key at position `i` of the declaration order.
    pub fn at_rank(i: usize) -> (r: NonModifier)
        requires
            i < NONMODIFIER_COUNT,
        ensures
            r == NonModifier::from_rank(i as int),
            r.spec_rank() == i,
    {
        if i == 0 {
            NonModifier::F1
        } else if i == 1 {
            NonModifier::F2
        } else if i == 2 {
            NonModifier::F3
        } else if i == 3 {
            NonModifier::F4
        } else if i == 4 {
            NonModifier::F5
        } else if i == 5 {
            NonModifier::F6
        } else if i == 6 {
            NonModifier::F7
        } else if i == 7 {
            NonModifier::F8
        } else if i == 8 {
            NonModifier::F9
        } else if i == 9 {
            NonModifier::F10
        } else if i == 10 {
            NonModifier::F11
        } else if i == 11 {
            NonModifier::F12
        } else if i == 12 {
            NonModifier::One
        } else if i == 13 {
            NonModifier::Two
        } else if i == 14 {
            NonModifier::Three
        } else if i == 15 {
            NonModifier::Four
        } else if i == 16 {
            NonModifier::Five
        } else if i == 17 {
            NonModifier::Six
        } else if i == 18 {
            NonModifier::Seven
        } else if i == 19 {
            NonModifier::Eight
        } else if i == 20 {
            NonModifier::Nine
        } else if i == 21 {
            NonModifier::Zero
        } else if i == 22 {
            NonModifier::Backtick
        } else if i == 23 {
            NonModifier::Hyphen
        } else if i == 24 {
            NonModifier::Equals
        } else if i == 25 {
            NonModifier::A
        } else if i == 26 {
            NonModifier::B
        } else if i == 27 {
            NonModifier::C
        } else if i == 28 {
            NonModifier::D
        } else if i == 29 {
            NonModifier::E
        } else if i == 30 {
            NonModifier::F
        } else if i == 31 {
            NonModifier::G
        } else if i == 32 {
            NonModifier::H
        } else if i == 33 {
            NonModifier::I
        } else if i == 34 {
            NonModifier::J
        } else if i == 35 {
            NonModifier::K
        } else if i == 36 {
            NonModifier::L
        } else if i == 37 {
            NonModifier::M
        } else if i == 38 {
            NonModifier::N
        } else if i == 39 {
            NonModifier::O
        } else if i == 40 {
            NonModifier::P
        } else if i == 41 {
            NonModifier::Q
        } else if i == 42 {
            NonModifier::R
        } else if i == 43 {
            NonModifier::S
        } else if i == 44 {
            NonModifier::T
        } else if i == 45 {
            NonModifier::U
        } else if i == 46 {
            NonModifier::V
        } else if i == 47 {
            NonModifier::W
        } else if i == 48 {
            NonModifier::X
        } else if i == 49 {
            NonModifier::Y
        } else if i == 50 {
            NonModifier::Z
        } else if i == 51 {
            NonModifier::BackSlash
        } else if i == 52 {
            NonModifier::SemiColon
        } else if i == 53 {
            NonModifier::Quote
        } else if i == 54 {
            NonModifier::Comma
        } else if i == 55 {
            NonModifier::FullStop
        } else if i == 56 {
            NonModifier::ForwardSlash
        } else if i == 57 {
            NonModifier::OpenBracket
        } else if i == 58 {
            NonModifier::CloseBracket
        } else if i == 59 {
            NonModifier::Enter
        } else if i == 60 {
            NonModifier::PageUp
        } else if i == 61 {
            NonModifier::Tab
        } else if i == 62 {
            NonModifier::PageDown
        } else if i == 63 {
            NonModifier::Space
        } else if i == 64 {
            NonModifier::LeftArrow
        } else if i == 65 {
            NonModifier::Delete
        } else if i == 66 {
            NonModifier::RightArrow
        } else if i == 67 {
            NonModifier::Backspace
        } else if i == 68 {
            NonModifier::UpArrow
        } else if i == 69 {
            NonModifier::Insert
        } else if i == 70 {
            NonModifier::DownArrow
        } else if i == 71 {
            NonModifier::Home
        } else if i == 72 {
            NonModifier::End
        } else if i == 73 {
            NonModifier::CapsLock
        } else {
            NonModifier::International
        }
    }

    /// The key's canonical lowercase token in the normal layer.
    pub open spec fn spec_token(self) -> Seq<char> {
        match self {
            NonModifier::F1 => "f1"@,
            NonModifier::F2 => "f2"@,
            NonModifier::F3 => "f3"@,
            NonModifier::F4 => "f4"@,
            NonModifier::F5 => "f5"@,
            NonModifier::F6 => "f6"@,
            NonModifier::F7 => "f7"@,
            NonModifier::F8 => "f8"@,
            NonModifier::F9 => "f9"@,
            NonModifier::F10 => "f10"@,
            NonModifier::F11 => "f11"@,
            NonModifier::F12 => "f12"@,
            NonModifier::One => "1"@,
            NonModifier::Two => "2"@,
            NonModifier::Three => "3"@,
            NonModifier::Four => "4"@,
            NonModifier::Five => "5"@,
            NonModifier::Six => "6"@,
            NonModifier::Seven => "7"@,
            NonModifier::Eight => "8"@,
            NonModifier::Nine => "9"@,
            NonModifier::Zero => "0"@,
            NonModifier::Backtick => "`"@,
            NonModifier::Hyphen => "hyphen"@,
            NonModifier::Equals => "="@,
            NonModifier::A => "a"@,
            NonModifier::B => "b"@,
            NonModifier::C => "c"@,
            NonModifier::D => "d"@,
            NonModifier::E => "e"@,
            NonModifier::F => "f"@,
            NonModifier::G => "g"@,
            NonModifier::H => "h"@,
            NonModifier::I => "i"@,
            NonModifier::J => "j"@,
            NonModifier::K => "k"@,
            NonModifier::L => "l"@,
            NonModifier::M => "m"@,
            NonModifier::N => "n"@,
            NonModifier::O => "o"@,
            NonModifier::P => "p"@,
            NonModifier::Q => "q"@,
            NonModifier::R => "r"@,
            NonModifier::S => "s"@,
            NonModifier::T => "t"@,
            NonModifier::U => "u"@,
            NonModifier::V => "v"@,
            NonModifier::W => "w"@,
            NonModifier::X => "x"@,
            NonModifier::Y => "y"@,
            NonModifier::Z => "z"@,
            NonModifier::BackSlash => "\\"@,
            NonModifier::SemiColon => ";"@,
            NonModifier::Quote => "'"@,
            NonModifier::Comma => ","@,
            NonModifier::FullStop => "."@,
            NonModifier::ForwardSlash => "/"@,
            NonModifier::OpenBracket => "obrack"@,
            NonModifier::CloseBracket => "cbrack"@,
            NonModifier::Enter => "enter"@,
            NonModifier::PageUp => "pup"@,
            NonModifier::Tab => "tab"@,
            NonModifier::PageDown => "pdown"@,
            NonModifier::Space => "space"@,
            NonModifier::LeftArrow => "left"@,
            NonModifier::Delete => "delete"@,
            NonModifier::RightArrow => "right"@,
            NonModifier::Backspace => "bspace"@,
            NonModifier::UpArrow => "up"@,
            NonModifier::Insert => "insert"@,
            NonModifier::DownArrow => "down"@,
            NonModifier::Home => "home"@,
            NonModifier::End => "end"@,
            NonModifier::CapsLock => "caps"@,
            NonModifier::International => "intl-\\"@,
        }
    }

    /// The key's canonical lowercase token in the normal layer.
    pub fn token(self) -> (r: &'static str)
        ensures
            r@ == self.spec_token(),
    {
        match self {
            NonModifier::F1 => "f1",
            NonModifier::F2 => "f2",
            NonModifier::F3 => "f3",
            NonModifier::F4 => "f4",
            NonModifier::F5 => "f5",
            NonModifier::F6 => "f6",
            NonModifier::F7 => "f7",
            NonModifier::F8 => "f8",
            NonModifier::F9 => "f9",
            NonModifier::F10 => "f10",
            NonModifier::F11 => "f11",
            NonModifier::F12 => "f12",
            NonModifier::One => "1",
            NonModifier::Two => "2",
            NonModifier::Three => "3",
            NonModifier::Four => "4",
            NonModifier::Five => "5",
            NonModifier::Six => "6",
            NonModifier::Seven => "7",
            NonModifier::Eight => "8",
            NonModifier::Nine => "9",
            NonModifier::Zero => "0",
            NonModifier::Backtick => "`",
            NonModifier::Hyphen => "hyphen",
            NonModifier::Equals => "=",
            NonModifier::A => "a",
            NonModifier::B => "b",
            NonModifier::C => "c",
            NonModifier::D => "d",
            NonModifier::E => "e",
            NonModifier::F => "f",
            NonModifier::G => "g",
            NonModifier::H => "h",
            NonModifier::I => "i",
            NonModifier::J => "j",
            NonModifier::K => "k",
            NonModifier::L => "l",
            NonModifier::M => "m",
            NonModifier::N => "n",
            NonModifier::O => "o",
            NonModifier::P => "p",
            NonModifier::Q => "q",
            NonModifier::R => "r",
            NonModifier::S => "s",
            NonModifier::T => "t",
            NonModifier::U => "u",
            NonModifier::V => "v",
            NonModifier::W => "w",
            NonModifier::X => "x",
            NonModifier::Y => "y",
            NonModifier::Z => "z",
            NonModifier::BackSlash => "\\",
            NonModifier::SemiColon => ";",
            NonModifier::Quote => "'",
            NonModifier::Comma => ",",
            NonModifier::FullStop => ".",
            NonModifier::ForwardSlash => "/",
            NonModifier::OpenBracket => "obrack",
            NonModifier::CloseBracket => "cbrack",
            NonModifier::Enter => "enter",
            NonModifier::PageUp => "pup",
            NonModifier::Tab => "tab",
            NonModifier::PageDown => "pdown",
            NonModifier::Space => "space",
            NonModifier::LeftArrow => "left",
            NonModifier::Delete => "delete",
            NonModifier::RightArrow => "right",
            NonModifier::Backspace => "bspace",
            NonModifier::UpArrow => "up",
            NonModifier::Insert => "insert",
            NonModifier::DownArrow => "down",
            NonModifier::Home => "home",
            NonModifier::End => "end",
            NonModifier::CapsLock => "caps",
            NonModifier::International => "intl-\\",
        }
    }
}

/// The numeric-keypad token that a key carries when the keypad layer is on, if it has one.
pub open spec fn keypad_alias(k: NonModifier) -> Option<Seq<char>> {
    match k {
        NonModifier::Space => Some("kp0"@),
        NonModifier::M => Some("kp1"@),
        NonModifier::Comma => Some("kp2"@),
        NonModifier::FullStop => Some("kp3"@),
        NonModifier::J => Some("kp4"@),
        NonModifier::K => Some("kp5"@),
        NonModifier::L => Some("kp6"@),
        NonModifier::U => Some("kp7"@),
        NonModifier::I => Some("kp8"@),
        NonModifier::O => Some("kp9"@),
        NonModifier::Seven => Some("numlk"@),
        NonModifier::CloseBracket => Some("k."@),
        NonModifier::Eight => Some("k="@),
        NonModifier::Nine => Some("kpdiv"@),
        NonModifier::SemiColon => Some("kpplus"@),
        NonModifier::Zero => Some("kpmult"@),
        NonModifier::P => Some("kpmin"@),
        NonModifier::ForwardSlash => Some("kpenter1"@),
        NonModifier::International => Some("kp-insert"@),
        _ => None,
    }
}

/// The numeric-keypad token that a key carries when the keypad layer is on, if it has one.
pub fn keypad_alias_token(k: NonModifier) -> (r: Option<&'static str>)
    ensures
        match r {
            Some(t) => keypad_alias(k) == Some(t@),
            None => keypad_alias(k) is None,
        },
{
    match k {
        NonModifier::Space => Some("kp0"),
        NonModifier::M => Some("kp1"),
        NonModifier::Comma => Some("kp2"),
        NonModifier::FullStop => Some("kp3"),
        NonModifier::J => Some("kp4"),
        NonModifier::K => Some("kp5"),
        NonModifier::L => Some("kp6"),
        NonModifier::U => Some("kp7"),
        NonModifier::I => Some("kp8"),
        NonModifier::O => Some("kp9"),
        NonModifier::Seven => Some("numlk"),
        NonModifier::CloseBracket => Some("k."),
        NonModifier::Eight => Some("k="),
        NonModifier::Nine => Some("kpdiv"),
        NonModifier::SemiColon => Some("kpplus"),
        NonModifier::Zero => Some("kpmult"),
        NonModifier::P => Some("kpmin"),
        NonModifier::ForwardSlash => Some("kpenter1"),
        NonModifier::International => Some("kp-insert"),
        _ => None,
    }
}

/// No two keys of the keypad alias table share a token.
pub proof fn lemma_keypad_aliases_distinct(a: NonModifier, b: NonModifier)
    requires
        keypad_alias(a) is Some,
        keypad_alias(b) is Some,
        a != b,
    ensures
        keypad_alias(a) != keypad_alias(b),
{
    reveal_strlit("kp0");
    reveal_strlit("kp1");
    reveal_strlit("kp2");
    reveal_strlit("kp3");
    reveal_strlit("kp4");
    reveal_strlit("kp5");
    reveal_strlit("kp6");
    reveal_strlit("kp7");
    reveal_strlit("kp8");
    reveal_strlit("kp9");
    reveal_strlit("numlk");
    reveal_strlit("k.");
    reveal_strlit("k=");
    reveal_strlit("kpdiv");
    reveal_strlit("kpplus");
    reveal_strlit("kpmult");
    reveal_strlit("kpmin");
    reveal_strlit("kpenter1");
    reveal_strlit("kp-insert");
    let ta = keypad_alias(a).unwrap();
    let tb = keypad_alias(b).unwrap();
    assert(ta.len() != tb.len() || ta[0] != tb[0] || ta[1] != tb[1] || ta[2] != tb[2]
        || ta[3] != tb[3]);
}

/// A key of the keyboard: a modifier or a non-modifier key.
#[derive(PartialEq, Eq, Structural, PartialOrd, Ord, Clone, Copy, Hash, Debug)]
pub enum Key {
    Modifier(Modifier),
    NonModifier(NonModifier),
}

/// Number of `Key` values: every modifier, then every non-modifier key.
pub const KEY_COUNT: u64 = 83;

impl Key {
    /// Position in the sort order: the modifiers first, then the non-modifier keys.
    pub open spec fn spec_rank(self) -> int {
        match self {
            Key::Modifier(m) => m.spec_rank(),
            Key::NonModifier(n) => 8 + n.spec_rank(),
        }
    }

    /// Different keys have different ranks.
    pub proof fn lemma_rank_injective(self, other: Key)
        requires
            self.spec_rank() == other.spec_rank(),
        ensures
            self == other,
    {
        match self {
            Key::Modifier(m) => m.lemma_rank(),
            Key::NonModifier(n) => n.lemma_rank(),
        }
        match other {
            Key::Modifier(m) => m.lemma_rank(),
            Key::NonModifier(n) => n.lemma_rank(),
        }
    }

    /// Position in the sort order: the modifiers first, then the non-modifier keys.
    pub fn rank(self) -> (r: u64)
        ensures
            r == self.spec_rank(),
            r < KEY_COUNT,
    {
        match self {
            Key::Modifier(m) => {
                proof {
                    m.lemma_rank();
                }
                m.rank() as u64
            },
            Key::NonModifier(n) => {
                proof {
                    n.lemma_rank();
                }
                8 + n.rank() as u64
            },
        }
    }

    /// The key's canonical token in the normal layer.
    pub open spec fn spec_token(self) -> Seq<char> {
        match self {
            Key::Modifier(m) => m.spec_token(),
            Key::NonModifier(n) => n.spec_token(),
        }
    }

    /// The key's canonical token in the normal layer.
    pub fn token(self) -> (r: &'static str)
        ensures
            r@ == self.spec_token(),
    {
        match self {
            Key::Modifier(m) => m.token(),
            Key::NonModifier(n) => n.token(),
        }
    }
}

/// A key together with the layer it is addressed in. Two values with the same key
/// and different layers are different keys.
#[derive(PartialEq, Eq, Structural, PartialOrd, Ord, Clone, Copy, Hash, Debug)]
pub struct KeyLayer {
    pub keypad_state: Keypad,
    pub key: Key,
}

impl KeyLayer {
    /// The key in the given layer.
    pub fn new(keypad_state: Keypad, key: Key) -> (r: KeyLayer)
        ensures
            r == (KeyLayer { keypad_state, key }),
    {
        KeyLayer { keypad_state, key }
    }

    /// The key in the normal layer.
    pub fn off(key: Key) -> (r: KeyLayer)
        ensures
            r == (KeyLayer { keypad_state: Keypad::Off, key }),
    {
        KeyLayer::new(Keypad::Off, key)
    }

    /// The key in the keypad layer.
    pub fn on(key: Key) -> (r: KeyLayer)
        ensures
            r == (KeyLayer { keypad_state: Keypad::On, key }),
    {
        KeyLayer::new(Keypad::On, key)
    }

    /// Position in the sort order: the normal layer first, each layer by key.
    pub open spec fn spec_code(self) -> int {
        self.keypad_state.spec_rank() * 83 + self.key.spec_rank()
    }

    /// Different keys have different positions.
    pub proof fn lemma_code_injective(self, other: KeyLayer)
        requires
            self.spec_code() == other.spec_code(),
        ensures
            self == other,
    {
        match self.key {
            Key::Modifier(m) => m.lemma_rank(),
            Key::NonModifier(n) => n.lemma_rank(),
        }
        match other.key {
            Key::Modifier(m) => m.lemma_rank(),
            Key::NonModifier(n) => n.lemma_rank(),
        }
        self.key.lemma_rank_injective(other.key);
    }

    /// Position in the sort order.
    pub fn code(&self) -> (r: u64)
        ensures
            r == self.spec_code(),
    {
        self.keypad_state.rank() * KEY_COUNT + self.key.rank()
    }

    /// The key's token: its own token in the normal layer; in the keypad layer the
    /// keypad alias where it has one, else the normal token after `kp-`.
    pub open spec fn spec_token(self) -> Seq<char> {
        match self.keypad_state {
            Keypad::Off => self.key.spec_token(),
            Keypad::On => match self.key {
                Key::NonModifier(n) => match keypad_alias(n) {
                    Some(t) => t,
                    None => "kp-"@ + n.spec_token(),
                },
                Key::Modifier(m) => "kp-"@ + m.spec_token(),
            },
        }
    }

    /// The key's token in its layer.
    pub fn token(&self) -> (r: String)
        ensures
            r@ == self.spec_token(),
    {
        match self.keypad_state {
            Keypad::Off => String::from_str(self.key.token()),
            Keypad::On => {
                if let Key::NonModifier(n) = self.key {
                    if let Some(t) = keypad_alias_token(n) {
                        return String::from_str(t);
                    }
                }
                let mut r = String::from_str("kp-");
                r.append(self.key.token());
                r
            },
        }
    }
}

/// Within the keypad layer, keys of the alias table never share a token.
pub proof fn lemma_keypad_tokens_distinct(a: NonModifier, b: NonModifier)
    requires
        keypad_alias(a) is Some,
        keypad_alias(b) is Some,
        a != b,
    ensures
        KeyLayer::on_spec(Key::NonModifier(a)).spec_token() != KeyLayer::on_spec(
            Key::NonModifier(b),
        ).spec_token(),
{
    lemma_keypad_aliases_distinct(a, b);
}

impl KeyLayer {
    /// The key in the normal layer.
    pub open spec fn off_spec(key: Key) -> KeyLayer {
        KeyLayer { keypad_state: Keypad::Off, key }
    }

    /// The key in the keypad layer.
    pub open spec fn on_spec(key: Key) -> KeyLayer {
        KeyLayer { keypad_state: Keypad::On, key }
    }
}

/// One keystroke of a non-modifier key, with or without shift held.
#[derive(PartialEq, Eq, Structural, PartialOrd, Ord, Clone, Copy, Hash, Debug)]
pub struct KeyPress {
    pub shifted: bool,
    pub key: NonModifier,
}

impl KeyPress {
    /// A keystroke, shifted or not.
    pub fn new(shifted: bool, key: NonModifier) -> (r: KeyPress)
        ensures
            r == (KeyPress { shifted, key }),
    {
        KeyPress { shifted, key }
    }

    /// A keystroke without shift.
    pub fn not_shifted(key: NonModifier) -> (r: KeyPress)
        ensures
            r == (KeyPress { shifted: false, key }),
    {
        KeyPress::new(false, key)
    }

    /// A keystroke with shift.
    pub fn shifted(key: NonModifier) -> (r: KeyPress)
        ensures
            r == (KeyPress { shifted: true, key }),
    {
        KeyPress::new(true, key)
    }
}

/// A set of modifier keys. Each modifier is held or not, so a set has exactly one
/// representation and two sets are equal exactly when they hold the same modifiers.
#[derive(PartialEq, Eq, Structural, Clone, Copy, Hash, Debug)]
pub struct ModifierSet {
    left_shift: bool,
    right_shift: bool,
    left_windows_command: bool,
    right_windows_command: bool,
    left_control: bool,
    right_control: bool,
    left_alt: bool,
    right_alt: bool,
}

impl View for ModifierSet {
    type V = Set<Modifier>;

    open spec fn view(&self) -> Set<Modifier> {
        Set::new(|m: Modifier| self.holds(m.spec_rank()))
    }
}

impl ModifierSet {
    /// Whether the modifier at position `i` of the sort order is in the set.
    pub closed spec fn holds(self, i: int) -> bool {
        if i == 0 {
            self.left_shift
        } else if i == 1 {
            self.right_shift
        } else if i == 2 {
            self.left_windows_command
        } else if i == 3 {
            self.right_windows_command
        } else if i == 4 {
            self.left_control
        } else if i == 5 {
            self.right_control
        } else if i == 6 {
            self.left_alt
        } else if i == 7 {
            self.right_alt
        } else {
            false
        }
    }

    /// Whether the set holds a modifier at position `i` or later.
    pub open spec fn any_from(self, i: int) -> bool
        decreases 8 - i,
    {
        if i >= 8 || i < 0 {
            false
        } else {
            self.holds(i) || self.any_from(i + 1)
        }
    }

    /// Sets with the same members are equal.
    pub proof fn lemma_view_injective(self, other: ModifierSet)
        requires
            self@ == other@,
        ensures
            self == other,
    {
        assert forall|i: int| 0 <= i < 8 implies self.holds(i) == other.holds(i) by {
            let m = Modifier::from_rank(i);
            assert(m.spec_rank() == i);
            assert(self@.contains(m) == self.holds(i));
            assert(other@.contains(m) == other.holds(i));
        }
        assert(self.holds(0) == other.holds(0));
        assert(self.holds(1) == other.holds(1));
        assert(self.holds(2) == other.holds(2));
        assert(self.holds(3) == other.holds(3));
        assert(self.holds(4) == other.holds(4));
        assert(self.holds(5) == other.holds(5));
        assert(self.holds(6) == other.holds(6));
        assert(self.holds(7) == other.holds(7));
    }

    /// The empty set.
    pub fn new() -> (r: ModifierSet)
        ensures
            r@ == Set::<Modifier>::empty(),
    {
        let r = ModifierSet {
            left_shift: false,
            right_shift: false,
            left_windows_command: false,
            right_windows_command: false,
            left_control: false,
            right_control: false,
            left_alt: false,
            right_alt: false,
        };
        assert(r@ =~= Set::<Modifier>::empty());
        r
    }

    /// Whether the modifier at position `i` of the sort order is in the set.
    pub fn holds_rank(&self, i: usize) -> (r: bool)
        ensures
            r == self.holds(i as int),
    {
        if i == 0 {
            self.left_shift
        } else if i == 1 {
            self.right_shift
        } else if i == 2 {
            self.left_windows_command
        } else if i == 3 {
            self.right_windows_command
        } else if i == 4 {
            self.left_control
        } else if i == 5 {
            self.right_control
        } else if i == 6 {
            self.left_alt
        } else if i == 7 {
            self.right_alt
        } else {
            false
        }
    }

    /// Whether the modifier is in the set.
    pub fn contains(&self, m: Modifier) -> (r: bool)
        ensures
            r == self@.contains(m),
    {
        self.holds_rank(m.rank())
    }

    /// Adds a modifier to the set.
    pub fn insert(&mut self, m: Modifier)
        ensures
            final(self)@ == old(self)@.insert(m),
    {
        match m {
            Modifier::LeftShift => self.left_shift = true,
            Modifier::RightShift => self.right_shift = true,
            Modifier::LeftWindowsCommand => self.left_windows_command = true,
            Modifier::RightWindowsCommand => self.right_windows_command = true,
            Modifier::LeftControl => self.left_control = true,
            Modifier::RightControl => self.right_control = true,
            Modifier::LeftAlt => self.left_alt = true,
            Modifier::RightAlt => self.right_alt = true,
        }
        assert(final(self)@ =~= old(self)@.insert(m));
    }

    /// The set with one more modifier.
    pub fn with(self, m: Modifier) -> (r: ModifierSet)
        ensures
            r@ == self@.insert(m),
    {
        let mut r = self;
        r.insert(m);
        r
    }

    /// The set of the given modifiers; repeats count once.
    pub fn from_slice(ms: &[Modifier]) -> (r: ModifierSet)
        ensures
            r@ == ms@.to_set(),
    {
        let mut r = ModifierSet::new();
        let mut i: usize = 0;
        while i < ms.len()
            invariant
                i <= ms@.len(),
                r@ == ms@.subrange(0, i as int).to_set(),
            decreases ms@.len() - i,
        {
            let ghost before = r@;
            r.insert(ms[i]);
            proof {
                assert(ms@.subrange(0, i + 1) =~= ms@.subrange(0, i as int).push(ms@[i as int]));
                ms@.subrange(0, i as int).lemma_push_to_set_commute(ms@[i as int]);
            }
            i = i + 1;
        }
        assert(ms@.subrange(0, ms@.len() as int) =~= ms@);
        r
    }
}

/// The order on modifier sets, read from position `i` on: the sets are compared as
/// their members listed in ascending order, lexicographically, where a proper prefix
/// comes first.
pub open spec fn modifiers_lt(a: ModifierSet, b: ModifierSet, i: int) -> bool
    decreases 8 - i,
{
    if i >= 8 || i < 0 {
        false
    } else if a.holds(i) == b.holds(i) {
        modifiers_lt(a, b, i + 1)
    } else if a.holds(i) {
        b.any_from(i + 1)
    } else {
        !a.any_from(i + 1)
    }
}

/// The two sets agree on every position from `i` on.
pub open spec fn agree_from(a: ModifierSet, b: ModifierSet, i: int) -> bool {
    forall|j: int| i <= j < 8 ==> a.holds(j) == b.holds(j)
}

proof fn lemma_lt_needs_member(a: ModifierSet, b: ModifierSet, i: int)
    requires
        0 <= i,
        modifiers_lt(a, b, i),
    ensures
        b.any_from(i),
    decreases 8 - i,
{
    if i < 8 && a.holds(i) == b.holds(i) && !b.holds(i) {
        lemma_lt_needs_member(a, b, i + 1);
    }
}

proof fn lemma_empty_below_member(a: ModifierSet, c: ModifierSet, i: int)
    requires
        0 <= i,
        !a.any_from(i),
        c.any_from(i),
    ensures
        modifiers_lt(a, c, i),
    decreases 8 - i,
{
    if i < 8 && !c.holds(i) {
        lemma_empty_below_member(a, c, i + 1);
    }
}

proof fn lemma_modifiers_irreflexive(a: ModifierSet, i: int)
    ensures
        !modifiers_lt(a, a, i),
    decreases 8 - i,
{
    if 0 <= i < 8 {
        lemma_modifiers_irreflexive(a, i + 1);
    }
}

proof fn lemma_modifiers_trichotomy(a: ModifierSet, b: ModifierSet, i: int)
    requires
        0 <= i,
    ensures
        modifiers_lt(a, b, i) || modifiers_lt(b, a, i) || agree_from(a, b, i),
    decreases 8 - i,
{
    if i < 8 && a.holds(i) == b.holds(i) {
        lemma_modifiers_trichotomy(a, b, i + 1);
    }
}

proof fn lemma_modifiers_transitive(a: ModifierSet, b: ModifierSet, c: ModifierSet, i: int)
    requires
        0 <= i,
        modifiers_lt(a, b, i),
        modifiers_lt(b, c, i),
    ensures
        modifiers_lt(a, c, i),
    decreases 8 - i,
{
    if i < 8 {
        let (x, y, z) = (a.holds(i), b.holds(i), c.holds(i));
        if x == y && y == z {
            lemma_modifiers_transitive(a, b, c, i + 1);
        } else if x == y {
            if !x {
                lemma_lt_needs_member(a, b, i + 1);
            }
        } else if y == z {
            if x {
                lemma_lt_needs_member(b, c, i + 1);
            }
        } else {
            if !x {
                lemma_empty_below_member(a, c, i + 1);
            }
        }
    }
}

proof fn lemma_agree_equal(a: ModifierSet, b: ModifierSet)
    requires
        agree_from(a, b, 0),
    ensures
        a == b,
{
    assert(a.holds(0) == b.holds(0));
    assert(a.holds(1) == b.holds(1));
    assert(a.holds(2) == b.holds(2));
    assert(a.holds(3) == b.holds(3));
    assert(a.holds(4) == b.holds(4));
    assert(a.holds(5) == b.holds(5));
    assert(a.holds(6) == b.holds(6));
    assert(a.holds(7) == b.holds(7));
}

fn any_from_exec(s: &ModifierSet, i: usize) -> (r: bool)
    requires
        i <= 8,
    ensures
        r == s.any_from(i as int),
    decreases 8 - i,
{
    if i >= 8 {
        false
    } else {
        s.holds_rank(i) || any_from_exec(s, i + 1)
    }
}

fn modifiers_less(a: &ModifierSet, b: &ModifierSet, i: usize) -> (r: bool)
    requires
        i <= 8,
    ensures
        r == modifiers_lt(*a, *b, i as int),
    decreases 8 - i,
{
    if i >= 8 {
        false
    } else {
        let x = a.holds_rank(i);
        let y = b.holds_rank(i);
        if x == y {
            modifiers_less(a, b, i + 1)
        } else if x {
            any_from_exec(b, i + 1)
        } else {
            !any_from_exec(a, i + 1)
        }
    }
}

/// A chord: a set of held modifiers with one non-modifier key, in one layer.
#[derive(PartialEq, Eq, Structural, Clone, Copy, Hash, Debug)]
pub struct Shortcut {
    pub keypad: Keypad,
    pub modifiers: ModifierSet,
    pub non_modifier: NonModifier,
}

/// The total order on shortcuts: by layer, then by modifier set, then by key.
pub open spec fn shortcut_lt(a: Shortcut, b: Shortcut) -> bool {
    a.keypad.spec_rank() < b.keypad.spec_rank() || (a.keypad == b.keypad && (modifiers_lt(
        a.modifiers,
        b.modifiers,
        0,
    ) || (a.modifiers == b.modifiers && a.non_modifier.spec_rank()
        < b.non_modifier.spec_rank())))
}

/// No shortcut sorts before itself.
pub proof fn lemma_shortcut_irreflexive(a: Shortcut)
    ensures
        !shortcut_lt(a, a),
{
    lemma_modifiers_irreflexive(a.modifiers, 0);
}

/// Of two different shortcuts, one sorts before the other.
pub proof fn lemma_shortcut_trichotomy(a: Shortcut, b: Shortcut)
    ensures
        shortcut_lt(a, b) || shortcut_lt(b, a) || a == b,
{
    lemma_modifiers_trichotomy(a.modifiers, b.modifiers, 0);
    if agree_from(a.modifiers, b.modifiers, 0) {
        lemma_agree_equal(a.modifiers, b.modifiers);
    }
    a.non_modifier.lemma_rank();
    b.non_modifier.lemma_rank();
}

/// The order on shortcuts is transitive.
pub proof fn lemma_shortcut_transitive(a: Shortcut, b: Shortcut, c: Shortcut)
    requires
        shortcut_lt(a, b),
        shortcut_lt(b, c),
    ensures
        shortcut_lt(a, c),
{
    if a.keypad == b.keypad && b.keypad == c.keypad {
        if modifiers_lt(a.modifiers, b.modifiers, 0) && modifiers_lt(b.modifiers, c.modifiers, 0) {
            lemma_modifiers_transitive(a.modifiers, b.modifiers, c.modifiers, 0);
        }
    }
}

impl Shortcut {
    fn new(keypad: Keypad, modifiers: ModifierSet, non_modifier: NonModifier) -> (r: Shortcut)
        ensures
            r == (Shortcut { keypad, modifiers, non_modifier }),
    {
        Shortcut { keypad, modifiers, non_modifier }
    }

    /// A shortcut in the normal layer.
    pub fn keypad_off(modifiers: ModifierSet, non_modifier: NonModifier) -> (r: Shortcut)
        ensures
            r == (Shortcut { keypad: Keypad::Off, modifiers, non_modifier }),
    {
        Shortcut::new(Keypad::Off, modifiers, non_modifier)
    }

    /// A shortcut in the keypad layer.
    pub fn keypad_on(modifiers: ModifierSet, non_modifier: NonModifier) -> (r: Shortcut)
        ensures
            r == (Shortcut { keypad: Keypad::On, modifiers, non_modifier }),
    {
        Shortcut::new(Keypad::On, modifiers, non_modifier)
    }

    /// Whether this shortcut sorts before `other`.
    pub fn less(&self, other: &Shortcut) -> (r: bool)
        ensures
            r == shortcut_lt(*self, *other),
    {
        let a = self.keypad.rank();
        let b = other.keypad.rank();
        if a != b {
            return a < b;
        }
        if modifiers_less(&self.modifiers, &other.modifiers, 0) {
            return true;
        }
        if self.modifiers != other.modifiers {
            return false;
        }
        self.non_modifier.rank() < other.non_modifier.rank()
    }
}

/// The modifier set with the given members.
pub open spec fn modifier_set_of(s: Set<Modifier>) -> ModifierSet {
    choose|m: ModifierSet| m@ == s
}

/// A modifier set is the one named by its members.
pub proof fn lemma_modifier_set_of(m: ModifierSet)
    ensures
        modifier_set_of(m@) == m,
{
    let c = modifier_set_of(m@);
    assert(c@ == m@);
    c.lemma_view_injective(m);
}

/// The trigger rendering of a shortcut's modifiers of position below `n`: each held
/// modifier's token in the shortcut's layer, in braces, in ascending order.
pub open spec fn trigger_modifiers(s: Shortcut, n: int) -> Seq<char>
    decreases n,
{
    if n <= 0 {
        Seq::empty()
    } else if s.modifiers.holds(n - 1) {
        trigger_modifiers(s, n - 1) + "{"@ + KeyLayer {
            keypad_state: s.keypad,
            key: Key::Modifier(Modifier::from_rank(n - 1)),
        }.spec_token() + "}"@
    } else {
        trigger_modifiers(s, n - 1)
    }
}

/// The rendering of a shortcut as a macro trigger: its modifiers, then its key.
pub open spec fn trigger_text(s: Shortcut) -> Seq<char> {
    trigger_modifiers(s, 8) + "{"@ + KeyLayer {
        keypad_state: s.keypad,
        key: Key::NonModifier(s.non_modifier),
    }.spec_token() + "}"@
}

impl Shortcut {
    /// Renders the shortcut as a macro trigger.
    pub fn to_string(&self) -> (r: String)
        ensures
            r@ == trigger_text(*self),
    {
        let mut out = String::new();
        let mut i: usize = 0;
        while i < 8
            invariant
                i <= 8,
                out@ == trigger_modifiers(*self, i as int),
            decreases 8 - i,
        {
            if self.modifiers.holds_rank(i) {
                let m = Modifier::at_rank(i);
                let t = KeyLayer::new(self.keypad, Key::Modifier(m)).token();
                out.append("{");
                out.append(t.as_str());
                out.append("}");
            }
            i = i + 1;
        }
        let t = KeyLayer::new(self.keypad, Key::NonModifier(self.non_modifier)).token();
        out.append("{");
        out.append(t.as_str());
        out.append("}");
        out
    }
}

/// Position `i` is held exactly when the modifier at that position is a member.
pub proof fn lemma_holds_member(ms: ModifierSet, i: int)
    requires
        0 <= i < 8,
    ensures
        ms.holds(i) == ms@.contains(Modifier::from_rank(i)),
{
    assert(Modifier::from_rank(i).spec_rank() == i);
}

/// Every set of modifiers is the view of a modifier set.
pub proof fn lemma_modifier_set_exists(s: Set<Modifier>)
    ensures
        modifier_set_of(s)@ == s,
{
    let w = ModifierSet {
        left_shift: s.contains(Modifier::LeftShift),
        right_shift: s.contains(Modifier::RightShift),
        left_windows_command: s.contains(Modifier::LeftWindowsCommand),
        right_windows_command: s.contains(Modifier::RightWindowsCommand),
        left_control: s.contains(Modifier::LeftControl),
        right_control: s.contains(Modifier::RightControl),
        left_alt: s.contains(Modifier::LeftAlt),
        right_alt: s.contains(Modifier::RightAlt),
    };
    assert forall|m: Modifier| w@.contains(m) == s.contains(m) by {
        match m {
            Modifier::LeftShift => {},
            Modifier::RightShift => {},
            Modifier::LeftWindowsCommand => {},
            Modifier::RightWindowsCommand => {},
            Modifier::LeftControl => {},
            Modifier::RightControl => {},
            Modifier::LeftAlt => {},
            Modifier::RightAlt => {},
        }
    }
    assert(w@ =~= s);
    let c = modifier_set_of(s);
    assert(c@ == s);
}

proof fn lemma_any_from_holds(s: ModifierSet, i: int, j: int)
    requires
        0 <= i <= j < 8,
        s.holds(j),
    ensures
        s.any_from(i),
    decreases j - i,
{
    if i < j {
        lemma_any_from_holds(s, i + 1, j);
    }
}

proof fn lemma_any_from_none(s: ModifierSet, i: int)
    requires
        0 <= i,
        forall|j: int| i <= j < 8 ==> !s.holds(j),
    ensures
        !s.any_from(i),
    decreases 8 - i,
{
    if i < 8 {
        lemma_any_from_none(s, i + 1);
    }
}

/// The empty modifier set sorts before every other.
pub proof fn lemma_empty_modifiers_first(a: ModifierSet, b: ModifierSet, m: Modifier)
    requires
        a@ == Set::<Modifier>::empty(),
        b@.contains(m),
    ensures
        modifiers_lt(a, b, 0),
{
    assert forall|j: int| 0 <= j < 8 implies !a.holds(j) by {
        lemma_holds_member(a, j);
    }
    m.lemma_rank();
    lemma_holds_member(b, m.spec_rank());
    lemma_any_from_none(a, 0);
    lemma_any_from_holds(b, 0, m.spec_rank());
    lemma_empty_below_member(a, b, 0);
}

/// Different keys have different tokens in the normal layer.
#[verifier::rlimit(100)]
#[verifier::spinoff_prover]
pub proof fn lemma_key_tokens_distinct(a: Key, b: Key)
    requires
        a != b,
    ensures
        a.spec_token() != b.spec_token(),
{
    reveal_strlit("'");
    reveal_strlit(",");
    reveal_strlit(".");
    reveal_strlit("/");
    reveal_strlit("0");
    reveal_strlit("1");
    reveal_strlit("2");
    reveal_strlit("3");
    reveal_strlit("4");
    reveal_strlit("5");
    reveal_strlit("6");
    reveal_strlit("7");
    reveal_strlit("8");
    reveal_strlit("9");
    reveal_strlit(";");
    reveal_strlit("=");
    reveal_strlit("\\");
    reveal_strlit("`");
    reveal_strlit("a");
    reveal_strlit("b");
    reveal_strlit("bspace");
    reveal_strlit("c");
    reveal_strlit("caps");
    reveal_strlit("cbrack");
    reveal_strlit("d");
    reveal_strlit("delete");
    reveal_strlit("down");
    reveal_strlit("e");
    reveal_strlit("end");
    reveal_strlit("enter");
    reveal_strlit("f");
    reveal_strlit("f1");
    reveal_strlit("f10");
    reveal_strlit("f11");
    reveal_strlit("f12");
    reveal_strlit("f2");
    reveal_strlit("f3");
    reveal_strlit("f4");
    reveal_strlit("f5");
    reveal_strlit("f6");
    reveal_strlit("f7");
    reveal_strlit("f8");
    reveal_strlit("f9");
    reveal_strlit("g");
    reveal_strlit("h");
    reveal_strlit("home");
    reveal_strlit("hyphen");
    reveal_strlit("i");
    reveal_strlit("insert");
    reveal_strlit("intl-\\");
    reveal_strlit("j");
    reveal_strlit("k");
    reveal_strlit("l");
    reveal_strlit("lalt");
    reveal_strlit("lctrl");
    reveal_strlit("left");
    reveal_strlit("lshift");
    reveal_strlit("lwin");
    reveal_strlit("m");
    reveal_strlit("n");
    reveal_strlit("o");
    reveal_strlit("obrack");
    reveal_strlit("p");
    reveal_strlit("pdown");
    reveal_strlit("pup");
    reveal_strlit("q");
    reveal_strlit("r");
    reveal_strlit("ralt");
    reveal_strlit("rctrl");
    reveal_strlit("right");
    reveal_strlit("rshift");
    reveal_strlit("rwin");
    reveal_strlit("s");
    reveal_strlit("space");
    reveal_strlit("t");
    reveal_strlit("tab");
    reveal_strlit("u");
    reveal_strlit("up");
    reveal_strlit("v");
    reveal_strlit("w");
    reveal_strlit("x");
    reveal_strlit("y");
    reveal_strlit("z");
    let ta = a.spec_token();
    let tb = b.spec_token();
    assert(ta.len() != tb.len() || ta[0] != tb[0] || ta[1] != tb[1] || ta[2] != tb[2]
        || ta[3] != tb[3]);
}

/// No key token holds a closing bracket.
#[verifier::rlimit(100)]
#[verifier::spinoff_prover]
pub proof fn lemma_token_no_bracket(x: KeyLayer)
    ensures
        forall|i: int| 0 <= i < x.spec_token().len() ==> x.spec_token()[i] != ']',
{
    reveal_strlit("'");
    reveal_strlit(",");
    reveal_strlit(".");
    reveal_strlit("/");
    reveal_strlit("0");
    reveal_strlit("1");
    reveal_strlit("2");
    reveal_strlit("3");
    reveal_strlit("4");
    reveal_strlit("5");
    reveal_strlit("6");
    reveal_strlit("7");
    reveal_strlit("8");
    reveal_strlit("9");
    reveal_strlit(";");
    reveal_strlit("=");
    reveal_strlit("\\");
    reveal_strlit("`");
    reveal_strlit("a");
    reveal_strlit("b");
    reveal_strlit("bspace");
    reveal_strlit("c");
    reveal_strlit("caps");
    reveal_strlit("cbrack");
    reveal_strlit("d");
    reveal_strlit("delete");
    reveal_strlit("down");
    reveal_strlit("e");
    reveal_strlit("end");
    reveal_strlit("enter");
    reveal_strlit("f");
    reveal_strlit("f1");
    reveal_strlit("f10");
    reveal_strlit("f11");
    reveal_strlit("f12");
    reveal_strlit("f2");
    reveal_strlit("f3");
    reveal_strlit("f4");
    reveal_strlit("f5");
    reveal_strlit("f6");
    reveal_strlit("f7");
    reveal_strlit("f8");
    reveal_strlit("f9");
    reveal_strlit("g");
    reveal_strlit("h");
    reveal_strlit("home");
    reveal_strlit("hyphen");
    reveal_strlit("i");
    reveal_strlit("insert");
    reveal_strlit("intl-\\");
    reveal_strlit("j");
    reveal_strlit("k");
    reveal_strlit("l");
    reveal_strlit("lalt");
    reveal_strlit("lctrl");
    reveal_strlit("left");
    reveal_strlit("lshift");
    reveal_strlit("lwin");
    reveal_strlit("m");
    reveal_strlit("n");
    reveal_strlit("o");
    reveal_strlit("obrack");
    reveal_strlit("p");
    reveal_strlit("pdown");
    reveal_strlit("pup");
    reveal_strlit("q");
    reveal_strlit("r");
    reveal_strlit("ralt");
    reveal_strlit("rctrl");
    reveal_strlit("right");
    reveal_strlit("rshift");
    reveal_strlit("rwin");
    reveal_strlit("s");
    reveal_strlit("space");
    reveal_strlit("t");
    reveal_strlit("tab");
    reveal_strlit("u");
    reveal_strlit("up");
    reveal_strlit("v");
    reveal_strlit("w");
    reveal_strlit("x");
    reveal_strlit("y");
    reveal_strlit("z");
    reveal_strlit("kp0");
    reveal_strlit("kp1");
    reveal_strlit("kp2");
    reveal_strlit("kp3");
    reveal_strlit("kp4");
    reveal_strlit("kp5");
    reveal_strlit("kp6");
    reveal_strlit("kp7");
    reveal_strlit("kp8");
    reveal_strlit("kp9");
    reveal_strlit("numlk");
    reveal_strlit("k.");
    reveal_strlit("k=");
    reveal_strlit("kpdiv");
    reveal_strlit("kpplus");
    reveal_strlit("kpmult");
    reveal_strlit("kpmin");
    reveal_strlit("kpenter1");
    reveal_strlit("kp-insert");
    reveal_strlit("kp-");
    let t = x.key.spec_token();
    assert forall|i: int| 0 <= i < t.len() implies t[i] != ']' by {}
    assert forall|i: int| 0 <= i < x.spec_token().len() implies x.spec_token()[i] != ']' by {
        match x.keypad_state {
            Keypad::Off => {},
            Keypad::On => {
                if i >= 3 && x.spec_token() == "kp-"@ + t {
                    assert(x.spec_token()[i] == t[i - 3]);
                }
            },
        }
    }
}

/// A normal-layer token belongs to one key of one layer only.
#[verifier::rlimit(100)]
#[verifier::spinoff_prover]
pub proof fn lemma_normal_token_unique(k: Key, x: KeyLayer)
    requires
        x.spec_token() == KeyLayer::off_spec(k).spec_token(),
    ensures
        x == KeyLayer::off_spec(k),
{
    if x.keypad_state == Keypad::Off {
        if x.key != k {
            lemma_key_tokens_distinct(x.key, k);
        }
    } else {
    reveal_strlit("'");
    reveal_strlit(",");
    reveal_strlit(".");
    reveal_strlit("/");
    reveal_strlit("0");
    reveal_strlit("1");
    reveal_strlit("2");
    reveal_strlit("3");
    reveal_strlit("4");
    reveal_strlit("5");
    reveal_strlit("6");
    reveal_strlit("7");
    reveal_strlit("8");
    reveal_strlit("9");
    reveal_strlit(";");
    reveal_strlit("=");
    reveal_strlit("\\");
    reveal_strlit("`");
    reveal_strlit("a");
    reveal_strlit("b");
    reveal_strlit("bspace");
    reveal_strlit("c");
    reveal_strlit("caps");
    reveal_strlit("cbrack");
    reveal_strlit("d");
    reveal_strlit("delete");
    reveal_strlit("down");
    reveal_strlit("e");
    reveal_strlit("end");
    reveal_strlit("enter");
    reveal_strlit("f");
    reveal_strlit("f1");
    reveal_strlit("f10");
    reveal_strlit("f11");
    reveal_strlit("f12");
    reveal_strlit("f2");
    reveal_strlit("f3");
    reveal_strlit("f4");
    reveal_strlit("f5");
    reveal_strlit("f6");
    reveal_strlit("f7");
    reveal_strlit("f8");
    reveal_strlit("f9");
    reveal_strlit("g");
    reveal_strlit("h");
    reveal_strlit("home");
    reveal_strlit("hyphen");
    reveal_strlit("i");
    reveal_strlit("insert");
    reveal_strlit("intl-\\");
    reveal_strlit("j");
    reveal_strlit("k");
    reveal_strlit("l");
    reveal_strlit("lalt");
    reveal_strlit("lctrl");
    reveal_strlit("left");
    reveal_strlit("lshift");
    reveal_strlit("lwin");
    reveal_strlit("m");
    reveal_strlit("n");
    reveal_strlit("o");
    reveal_strlit("obrack");
    reveal_strlit("p");
    reveal_strlit("pdown");
    reveal_strlit("pup");
    reveal_strlit("q");
    reveal_strlit("r");
    reveal_strlit("ralt");
    reveal_strlit("rctrl");
    reveal_strlit("right");
    reveal_strlit("rshift");
    reveal_strlit("rwin");
    reveal_strlit("s");
    reveal_strlit("space");
    reveal_strlit("t");
    reveal_strlit("tab");
    reveal_strlit("u");
    reveal_strlit("up");
    reveal_strlit("v");
    reveal_strlit("w");
    reveal_strlit("x");
    reveal_strlit("y");
    reveal_strlit("z");
    reveal_strlit("kp0");
    reveal_strlit("kp1");
    reveal_strlit("kp2");
    reveal_strlit("kp3");
    reveal_strlit("kp4");
    reveal_strlit("kp5");
    reveal_strlit("kp6");
    reveal_strlit("kp7");
    reveal_strlit("kp8");
    reveal_strlit("kp9");
    reveal_strlit("numlk");
    reveal_strlit("k.");
    reveal_strlit("k=");
    reveal_strlit("kpdiv");
    reveal_strlit("kpplus");
    reveal_strlit("kpmult");
    reveal_strlit("kpmin");
    reveal_strlit("kpenter1");
    reveal_strlit("kp-insert");
        reveal_strlit("kp-");
        let tx = x.spec_token();
        let tk = k.spec_token();
        assert(tx.len() != tk.len() || tx[0] != tk[0] || tx[1] != tk[1] || tx[2] != tk[2]
            || tx[3] != tk[3]);
    }
}

proof fn lemma_trigger_modifiers_open(s: Shortcut, n: int)
    ensures
        trigger_modifiers(s, n).len() == 0 || trigger_modifiers(s, n)[0] == '{',
    decreases n,
{
    reveal_strlit("{");
    if n > 0 {
        lemma_trigger_modifiers_open(s, n - 1);
    }
}

/// A trigger's rendering opens with a brace.
pub proof fn lemma_trigger_text_opens(s: Shortcut)
    ensures
        trigger_text(s).len() > 0,
        trigger_text(s)[0] == '{',
{
    reveal_strlit("{");
    lemma_trigger_modifiers_open(s, 8);
}

} // verus!
