//! Macros: building them from text, cursor moves, shortcuts and platform-agnostic
//! commands; resolving commands for a platform; rendering macro bodies.
use vstd::prelude::*;
use vstd::string::*;
use crate::keys::{
    lemma_modifier_set_of, modifier_set_of, Key, KeyLayer, KeyPress, Keypad, Modifier, ModifierSet,
    NonModifier, Shortcut,
};

verus! {

/// The key that types a character, for the characters of the table: US-ASCII
/// letters of either case, digits, punctuation with its shifted symbols, space, tab
/// and newline (typed with Enter).
pub open spec fn char_key(c: char) -> Option<NonModifier> {
    match c {
        '=' | '+' => Some(NonModifier::Equals),
        '1' | '!' => Some(NonModifier::One),
        '2' | '@' => Some(NonModifier::Two),
        '3' | '#' => Some(NonModifier::Three),
        '4' | '$' => Some(NonModifier::Four),
        '5' | '%' => Some(NonModifier::Five),
        '6' | '^' => Some(NonModifier::Six),
        '7' | '&' => Some(NonModifier::Seven),
        '8' | '*' => Some(NonModifier::Eight),
        '9' | '(' => Some(NonModifier::Nine),
        '0' | ')' => Some(NonModifier::Zero),
        '-' | '_' => Some(NonModifier::Hyphen),
        'q' | 'Q' => Some(NonModifier::Q),
        'w' | 'W' => Some(NonModifier::W),
        'e' | 'E' => Some(NonModifier::E),
        'r' | 'R' => Some(NonModifier::R),
        't' | 'T' => Some(NonModifier::T),
        'y' | 'Y' => Some(NonModifier::Y),
        'u' | 'U' => Some(NonModifier::U),
        'i' | 'I' => Some(NonModifier::I),
        'o' | 'O' => Some(NonModifier::O),
        'p' | 'P' => Some(NonModifier::P),
        '\\' | '|' => Some(NonModifier::BackSlash),
        '\t' => Some(NonModifier::Tab),
        'a' | 'A' => Some(NonModifier::A),
        's' | 'S' => Some(NonModifier::S),
        'd' | 'D' => Some(NonModifier::D),
        'f' | 'F' => Some(NonModifier::F),
        'g' | 'G' => Some(NonModifier::G),
        'h' | 'H' => Some(NonModifier::H),
        'j' | 'J' => Some(NonModifier::J),
        'k' | 'K' => Some(NonModifier::K),
        'l' | 'L' => Some(NonModifier::L),
        ';' | ':' => Some(NonModifier::SemiColon),
        '\'' | '"' => Some(NonModifier::Quote),
        'z' | 'Z' => Some(NonModifier::Z),
        'x' | 'X' => Some(NonModifier::X),
        'c' | 'C' => Some(NonModifier::C),
        'v' | 'V' => Some(NonModifier::V),
        'b' | 'B' => Some(NonModifier::B),
        'n' | 'N' => Some(NonModifier::N),
        'm' | 'M' => Some(NonModifier::M),
        ',' | '<' => Some(NonModifier::Comma),
        '.' | '>' => Some(NonModifier::FullStop),
        '/' | '?' => Some(NonModifier::ForwardSlash),
        '[' | '{' => Some(NonModifier::OpenBracket),
        ']' | '}' => Some(NonModifier::CloseBracket),
        '`' | '~' => Some(NonModifier::Backtick),
        '\n' => Some(NonModifier::Enter),
        ' ' => Some(NonModifier::Space),
        _ => None,
    }
}

/// The key that types a character, or `None` for a character outside the table.
pub fn char_to_key(c: char) -> (r: Option<NonModifier>)
    ensures
        r == char_key(c),
{
    match c {
        '=' | '+' => Some(NonModifier::Equals),
        '1' | '!' => Some(NonModifier::One),
        '2' | '@' => Some(NonModifier::Two),
        '3' | '#' => Some(NonModifier::Three),
        '4' | '$' => Some(NonModifier::Four),
        '5' | '%' => Some(NonModifier::Five),
        '6' | '^' => Some(NonModifier::Six),
        '7' | '&' => Some(NonModifier::Seven),
        '8' | '*' => Some(NonModifier::Eight),
        '9' | '(' => Some(NonModifier::Nine),
        '0' | ')' => Some(NonModifier::Zero),
        '-' | '_' => Some(NonModifier::Hyphen),
        'q' | 'Q' => Some(NonModifier::Q),
        'w' | 'W' => Some(NonModifier::W),
        'e' | 'E' => Some(NonModifier::E),
        'r' | 'R' => Some(NonModifier::R),
        't' | 'T' => Some(NonModifier::T),
        'y' | 'Y' => Some(NonModifier::Y),
        'u' | 'U' => Some(NonModifier::U),
        'i' | 'I' => Some(NonModifier::I),
        'o' | 'O' => Some(NonModifier::O),
        'p' | 'P' => Some(NonModifier::P),
        '\\' | '|' => Some(NonModifier::BackSlash),
        '\t' => Some(NonModifier::Tab),
        'a' | 'A' => Some(NonModifier::A),
        's' | 'S' => Some(NonModifier::S),
        'd' | 'D' => Some(NonModifier::D),
        'f' | 'F' => Some(NonModifier::F),
        'g' | 'G' => Some(NonModifier::G),
        'h' | 'H' => Some(NonModifier::H),
        'j' | 'J' => Some(NonModifier::J),
        'k' | 'K' => Some(NonModifier::K),
        'l' | 'L' => Some(NonModifier::L),
        ';' | ':' => Some(NonModifier::SemiColon),
        '\'' | '"' => Some(NonModifier::Quote),
        'z' | 'Z' => Some(NonModifier::Z),
        'x' | 'X' => Some(NonModifier::X),
        'c' | 'C' => Some(NonModifier::C),
        'v' | 'V' => Some(NonModifier::V),
        'b' | 'B' => Some(NonModifier::B),
        'n' | 'N' => Some(NonModifier::N),
        'm' | 'M' => Some(NonModifier::M),
        ',' | '<' => Some(NonModifier::Comma),
        '.' | '>' => Some(NonModifier::FullStop),
        '/' | '?' => Some(NonModifier::ForwardSlash),
        '[' | '{' => Some(NonModifier::OpenBracket),
        ']' | '}' => Some(NonModifier::CloseBracket),
        '`' | '~' => Some(NonModifier::Backtick),
        '\n' => Some(NonModifier::Enter),
        ' ' => Some(NonModifier::Space),
        _ => None,
    }
}

/// Whether typing a character needs shift: upper-case letters and the shifted
/// symbols of the table.
pub open spec fn needs_shift(c: char) -> bool {
    ('A' <= c && c <= 'Z') || c == '+' || c == '!' || c == '@' || c == '#' || c == '$' || c
        == '%' || c == '^' || c == '&' || c == '*' || c == '(' || c == ')' || c == '_' || c
        == '|' || c == ':' || c == '"' || c == '<' || c == '>' || c == '?' || c == '{' || c
        == '}' || c == '~'
}

/// Whether typing a character needs shift.
pub fn requires_shift(c: char) -> (r: bool)
    ensures
        r == needs_shift(c),
{
    ('A' <= c && c <= 'Z') || c == '+' || c == '!' || c == '@' || c == '#' || c == '$' || c
        == '%' || c == '^' || c == '&' || c == '*' || c == '(' || c == ')' || c == '_' || c
        == '|' || c == ':' || c == '"' || c == '<' || c == '>' || c == '?' || c == '{' || c
        == '}' || c == '~'
}

/// Whether every character of the text is in the character table.
pub open spec fn typeable(s: Seq<char>) -> bool {
    forall|i: int| 0 <= i < s.len() ==> (#[trigger] char_key(s[i])) is Some
}

/// The keystrokes that type a text, one per character.
pub open spec fn presses_of(s: Seq<char>) -> Seq<KeyPress> {
    Seq::new(
        s.len(),
        |i: int| KeyPress { shifted: needs_shift(s[i]), key: char_key(s[i]).unwrap() },
    )
}

/// Whether every character of the text is in the character table.
pub fn is_typeable(s: &str) -> (r: bool)
    ensures
        r == typeable(s@),
{
    let n = s.unicode_len();
    let mut i: usize = 0;
    while i < n
        invariant
            n == s@.len(),
            i <= n,
            forall|j: int| 0 <= j < i ==> (#[trigger] char_key(s@[j])) is Some,
        decreases n - i,
    {
        if char_to_key(s.get_char(i)).is_none() {
            return false;
        }
        i = i + 1;
    }
    true
}

/// The keystrokes that type a text.
pub fn string_to_key_presses(s: &str) -> (r: Vec<KeyPress>)
    requires
        typeable(s@),
    ensures
        r@ == presses_of(s@),
{
    let n = s.unicode_len();
    let mut r: Vec<KeyPress> = Vec::new();
    let mut i: usize = 0;
    while i < n
        invariant
            n == s@.len(),
            i <= n,
            typeable(s@),
            r@ == presses_of(s@).subrange(0, i as int),
        decreases n - i,
    {
        let c = s.get_char(i);
        assert(char_key(s@[i as int]) is Some);
        let key = char_to_key(c).unwrap();
        r.push(KeyPress::new(requires_shift(c), key));
        assert(r@ =~= presses_of(s@).subrange(0, i + 1));
        i = i + 1;
    }
    assert(r@ =~= presses_of(s@));
    r
}

/// `n` unshifted presses of one key.
pub open spec fn repeated(key: NonModifier, n: nat) -> Seq<KeyPress> {
    Seq::new(n, |i: int| KeyPress { shifted: false, key })
}

fn repeat_press(key: NonModifier, n: usize) -> (r: Vec<KeyPress>)
    ensures
        r@ == repeated(key, n as nat),
{
    let mut r: Vec<KeyPress> = Vec::new();
    let mut i: usize = 0;
    while i < n
        invariant
            i <= n,
            r@ == repeated(key, i as nat),
        decreases n - i,
    {
        r.push(KeyPress::not_shifted(key));
        assert(r@ =~= repeated(key, (i + 1) as nat));
        i = i + 1;
    }
    r
}

fn copy_presses(v: &Vec<KeyPress>) -> (r: Vec<KeyPress>)
    ensures
        r@ == v@,
{
    let mut r: Vec<KeyPress> = Vec::new();
    let mut i: usize = 0;
    while i < v.len()
        invariant
            i <= v@.len(),
            r@ == v@.subrange(0, i as int),
        decreases v@.len() - i,
    {
        r.push(v[i]);
        assert(r@ =~= v@.subrange(0, i + 1));
        i = i + 1;
    }
    assert(r@ =~= v@);
    r
}

/// The platform a layout is used with; `PC` and `Windows` are both of the PC family.
#[derive(PartialEq, Eq, Structural, PartialOrd, Ord, Clone, Copy, Hash, Debug)]
pub enum System {
    PC,
    Windows,
    Mac,
}

impl System {
    /// Whether the platform is a Mac.
    pub fn is_mac(self) -> (r: bool)
        ensures
            r == (self == System::Mac),
    {
        self == System::Mac
    }
}

impl Default for System {
    fn default() -> (r: System)
        ensures
            r == System::PC,
    {
        System::PC
    }
}

/// Platform-agnostic editing actions.
#[derive(PartialEq, Eq, Structural, PartialOrd, Ord, Clone, Copy, Hash, Debug)]
pub enum Command {
    Copy,
    Paste,
    Cut,
    Undo,
    JumpForward,
    JumpBack,
    LineEnd,
    LineStart,
}

/// The modifiers and the key of the chord that a command stands for on a platform.
/// On the PC family, jump-back is recorded as control+C, the copy chord, where
/// control+left-arrow would be expected; the table keeps it as recorded.
pub open spec fn command_chord(c: Command, system: System) -> (Set<Modifier>, NonModifier) {
    if system == System::Mac {
        match c {
            Command::Copy => (set![Modifier::RightWindowsCommand], NonModifier::C),
            Command::Paste => (set![Modifier::RightWindowsCommand], NonModifier::V),
            Command::Cut => (set![Modifier::RightWindowsCommand], NonModifier::X),
            Command::Undo => (set![Modifier::RightWindowsCommand], NonModifier::Z),
            Command::JumpForward => (set![Modifier::LeftAlt], NonModifier::RightArrow),
            Command::JumpBack => (set![Modifier::LeftAlt], NonModifier::LeftArrow),
            Command::LineEnd => (set![Modifier::RightWindowsCommand], NonModifier::LeftArrow),
            Command::LineStart => (set![Modifier::RightWindowsCommand], NonModifier::RightArrow),
        }
    } else {
        match c {
            Command::Copy => (set![Modifier::LeftControl], NonModifier::C),
            Command::Paste => (set![Modifier::LeftControl], NonModifier::V),
            Command::Cut => (set![Modifier::LeftControl], NonModifier::X),
            Command::Undo => (set![Modifier::LeftControl], NonModifier::Z),
            Command::JumpForward => (set![Modifier::LeftControl], NonModifier::RightArrow),
            Command::JumpBack => (set![Modifier::LeftControl], NonModifier::C),
            Command::LineEnd => (Set::empty(), NonModifier::End),
            Command::LineStart => (Set::empty(), NonModifier::Home),
        }
    }
}

/// The normal-layer shortcut that a command resolves to on a platform.
pub open spec fn command_shortcut(c: Command, system: System) -> Shortcut {
    Shortcut {
        keypad: Keypad::Off,
        modifiers: modifier_set_of(command_chord(c, system).0),
        non_modifier: command_chord(c, system).1,
    }
}

/// `PC` and `Windows` are one platform family: every command resolves to the same
/// shortcut on both.
pub proof fn lemma_pc_family_agree(c: Command)
    ensures
        command_shortcut(c, System::PC) == command_shortcut(c, System::Windows),
{
}

impl Command {
    /// The shortcut that the command resolves to on a platform.
    pub fn to_shortcut(self, system: System) -> (r: Shortcut)
        ensures
            r == command_shortcut(self, system),
    {
        let (m, k) = if system.is_mac() {
            match self {
                Command::Copy => (Some(Modifier::RightWindowsCommand), NonModifier::C),
                Command::Paste => (Some(Modifier::RightWindowsCommand), NonModifier::V),
                Command::Cut => (Some(Modifier::RightWindowsCommand), NonModifier::X),
                Command::Undo => (Some(Modifier::RightWindowsCommand), NonModifier::Z),
                Command::JumpForward => (Some(Modifier::LeftAlt), NonModifier::RightArrow),
                Command::JumpBack => (Some(Modifier::LeftAlt), NonModifier::LeftArrow),
                Command::LineEnd => (Some(Modifier::RightWindowsCommand), NonModifier::LeftArrow),
                Command::LineStart => (
                    Some(Modifier::RightWindowsCommand),
                    NonModifier::RightArrow,
                ),
            }
        } else {
            match self {
                Command::Copy => (Some(Modifier::LeftControl), NonModifier::C),
                Command::Paste => (Some(Modifier::LeftControl), NonModifier::V),
                Command::Cut => (Some(Modifier::LeftControl), NonModifier::X),
                Command::Undo => (Some(Modifier::LeftControl), NonModifier::Z),
                Command::JumpForward => (Some(Modifier::LeftControl), NonModifier::RightArrow),
                Command::JumpBack => (Some(Modifier::LeftControl), NonModifier::C),
                Command::LineEnd => (None, NonModifier::End),
                Command::LineStart => (None, NonModifier::Home),
            }
        };
        let mut mods = ModifierSet::new();
        if let Some(m) = m {
            mods.insert(m);
        }
        proof {
            assert(mods@ =~= command_chord(self, system).0);
            lemma_modifier_set_of(mods);
        }
        Shortcut::keypad_off(mods, k)
    }
}

/// A fragment of a macro as it is built: keystrokes, a shortcut, or a command that is
/// resolved for a platform later.
pub enum Fragment {
    Presses(Seq<KeyPress>),
    Chord(Shortcut),
    Action(Command),
}

/// A fragment of a resolved macro: keystrokes or a shortcut.
pub enum Emission {
    Presses(Seq<KeyPress>),
    Chord(Shortcut),
}

/// A fragment of a macro as it is built.
#[derive(PartialEq, Eq, Clone, Hash, Debug)]
pub enum MacroComponent {
    KeyPresses(Vec<KeyPress>),
    Shortcut(Shortcut),
    Command(Command),
}

impl View for MacroComponent {
    type V = Fragment;

    open spec fn view(&self) -> Fragment {
        match self {
            MacroComponent::KeyPresses(v) => Fragment::Presses(v@),
            MacroComponent::Shortcut(s) => Fragment::Chord(*s),
            MacroComponent::Command(c) => Fragment::Action(*c),
        }
    }
}

/// A fragment of a resolved macro.
#[derive(PartialEq, Eq, Clone, Hash, Debug)]
pub enum MacroPart {
    KeyPresses(Vec<KeyPress>),
    Shortcut(Shortcut),
}

impl View for MacroPart {
    type V = Emission;

    open spec fn view(&self) -> Emission {
        match self {
            MacroPart::KeyPresses(v) => Emission::Presses(v@),
            MacroPart::Shortcut(s) => Emission::Chord(*s),
        }
    }
}

/// A fragment resolved for a platform: a command becomes its shortcut, the rest stays.
pub open spec fn resolve_fragment(f: Fragment, system: System) -> Emission {
    match f {
        Fragment::Presses(p) => Emission::Presses(p),
        Fragment::Chord(s) => Emission::Chord(s),
        Fragment::Action(c) => Emission::Chord(command_shortcut(c, system)),
    }
}

/// A macro resolved for a platform, fragment by fragment, in order.
pub open spec fn resolve(fs: Seq<Fragment>, system: System) -> Seq<Emission> {
    fs.map_values(|f: Fragment| resolve_fragment(f, system))
}

impl MacroComponent {
    fn copy(&self) -> (r: MacroComponent)
        ensures
            r@ == self@,
    {
        match self {
            MacroComponent::KeyPresses(v) => MacroComponent::KeyPresses(copy_presses(v)),
            MacroComponent::Shortcut(s) => MacroComponent::Shortcut(*s),
            MacroComponent::Command(c) => MacroComponent::Command(*c),
        }
    }

    /// The fragment resolved for a platform.
    fn resolve(&self, system: System) -> (r: MacroPart)
        ensures
            r@ == resolve_fragment(self@, system),
    {
        match self {
            MacroComponent::KeyPresses(v) => MacroPart::KeyPresses(copy_presses(v)),
            MacroComponent::Shortcut(s) => MacroPart::Shortcut(*s),
            MacroComponent::Command(c) => MacroPart::Shortcut(c.to_shortcut(system)),
        }
    }
}

fn copy_components(v: &Vec<MacroComponent>) -> (r: Vec<MacroComponent>)
    ensures
        r@.map_values(|c: MacroComponent| c@) == v@.map_values(|c: MacroComponent| c@),
{
    let mut r: Vec<MacroComponent> = Vec::new();
    let mut i: usize = 0;
    while i < v.len()
        invariant
            i <= v@.len(),
            r@.len() == i,
            forall|j: int| 0 <= j < i ==> (#[trigger] r@[j])@ == v@[j]@,
        decreases v@.len() - i,
    {
        r.push(v[i].copy());
        i = i + 1;
    }
    assert(r@.map_values(|c: MacroComponent| c@) =~= v@.map_values(|c: MacroComponent| c@));
    r
}

/// Builds a macro fragment by fragment, in call order.
#[derive(PartialEq, Eq, Clone, Hash, Debug)]
pub struct MacroBuilder(Vec<MacroComponent>);

impl View for MacroBuilder {
    type V = Seq<Fragment>;

    closed spec fn view(&self) -> Seq<Fragment> {
        self.0@.map_values(|c: MacroComponent| c@)
    }
}

impl MacroBuilder {
    /// A builder with no fragments.
    pub fn new() -> (r: MacroBuilder)
        ensures
            r@ == Seq::<Fragment>::empty(),
    {
        let r = MacroBuilder(Vec::new());
        assert(r@ =~= Seq::<Fragment>::empty());
        r
    }

    /// A builder that starts by typing a text.
    pub fn from_string(s: &str) -> (r: MacroBuilder)
        requires
            typeable(s@),
        ensures
            r@ == seq![Fragment::Presses(presses_of(s@))],
    {
        MacroBuilder::new().with_string(s)
    }

    fn push(self, c: MacroComponent) -> (r: MacroBuilder)
        ensures
            r@ == self@.push(c@),
    {
        let mut v = self.0;
        v.push(c);
        let r = MacroBuilder(v);
        assert(r@ =~= self@.push(c@));
        r
    }

    /// Adds the typing of a text.
    pub fn with_string(self, s: &str) -> (r: MacroBuilder)
        requires
            typeable(s@),
        ensures
            r@ == self@.push(Fragment::Presses(presses_of(s@))),
    {
        self.push(MacroComponent::KeyPresses(string_to_key_presses(s)))
    }

    /// Adds a shortcut.
    pub fn with_shortcut(self, shortcut: Shortcut) -> (r: MacroBuilder)
        ensures
            r@ == self@.push(Fragment::Chord(shortcut)),
    {
        self.push(MacroComponent::Shortcut(shortcut))
    }

    /// Moves the cursor up `up` times.
    pub fn cursor_up(self, up: usize) -> (r: MacroBuilder)
        ensures
            r@ == self@.push(Fragment::Presses(repeated(NonModifier::UpArrow, up as nat))),
    {
        self.push(MacroComponent::KeyPresses(repeat_press(NonModifier::UpArrow, up)))
    }

    /// Moves the cursor down `down` times.
    pub fn cursor_down(self, down: usize) -> (r: MacroBuilder)
        ensures
            r@ == self@.push(Fragment::Presses(repeated(NonModifier::DownArrow, down as nat))),
    {
        self.push(MacroComponent::KeyPresses(repeat_press(NonModifier::DownArrow, down)))
    }

    /// Moves the cursor left `left` times.
    pub fn cursor_left(self, left: usize) -> (r: MacroBuilder)
        ensures
            r@ == self@.push(Fragment::Presses(repeated(NonModifier::LeftArrow, left as nat))),
    {
        self.push(MacroComponent::KeyPresses(repeat_press(NonModifier::LeftArrow, left)))
    }

    /// Moves the cursor right `right` times.
    pub fn cursor_right(self, right: usize) -> (r: MacroBuilder)
        ensures
            r@ == self@.push(
                Fragment::Presses(repeated(NonModifier::RightArrow, right as nat)),
            ),
    {
        self.push(MacroComponent::KeyPresses(repeat_press(NonModifier::RightArrow, right)))
    }

    /// Adds a platform-agnostic command.
    pub fn with_command(self, command: Command) -> (r: MacroBuilder)
        ensures
            r@ == self@.push(Fragment::Action(command)),
    {
        self.push(MacroComponent::Command(command))
    }

    /// The macro built so far; the builder stays usable.
    pub fn make(&self) -> (r: MacroOutputTemp)
        ensures
            r@ == self@,
    {
        MacroOutputTemp(copy_components(&self.0))
    }
}

/// A macro whose commands are not resolved yet.
#[derive(PartialEq, Eq, Clone, Hash, Debug)]
pub struct MacroOutputTemp(Vec<MacroComponent>);

impl View for MacroOutputTemp {
    type V = Seq<Fragment>;

    closed spec fn view(&self) -> Seq<Fragment> {
        self.0@.map_values(|c: MacroComponent| c@)
    }
}

impl MacroOutputTemp {
    /// A copy that shares nothing with this one.
    pub fn copy(&self) -> (r: MacroOutputTemp)
        ensures
            r@ == self@,
    {
        MacroOutputTemp(copy_components(&self.0))
    }

    /// The macro with every command resolved for a platform.
    pub fn to_macro_output(&self, system: System) -> (r: MacroOutput)
        ensures
            r@ == resolve(self@, system),
    {
        let mut r: Vec<MacroPart> = Vec::new();
        let mut i: usize = 0;
        while i < self.0.len()
            invariant
                i <= self.0@.len(),
                r@.len() == i,
                forall|j: int|
                    0 <= j < i ==> (#[trigger] r@[j])@ == resolve_fragment(self.0@[j]@, system),
            decreases self.0@.len() - i,
        {
            r.push(self.0[i].resolve(system));
            i = i + 1;
        }
        let out = MacroOutput(r);
        assert(out@ =~= resolve(self@, system));
        out
    }
}

/// A macro resolved for a platform: what a layout holds and renders.
#[derive(PartialEq, Eq, Clone, Hash, Debug)]
pub struct MacroOutput(Vec<MacroPart>);

impl View for MacroOutput {
    type V = Seq<Emission>;

    closed spec fn view(&self) -> Seq<Emission> {
        self.0@.map_values(|p: MacroPart| p@)
    }
}

/// A token of rendered keystrokes: shift pressed, shift released, or a key.
pub enum PressToken {
    ShiftDown,
    ShiftUp,
    Key(NonModifier),
}

/// The tokens for keystrokes, given whether shift is held before the first one.
/// Shift is pressed only where a shifted key follows an unshifted state and released
/// only where an unshifted key follows a shifted state, or at the end.
pub open spec fn press_tokens(ps: Seq<KeyPress>, held: bool) -> Seq<PressToken>
    decreases ps.len(),
{
    if ps.len() == 0 {
        if held {
            seq![PressToken::ShiftUp]
        } else {
            seq![]
        }
    } else {
        let p = ps[0];
        let toggle = if !held && p.shifted {
            seq![PressToken::ShiftDown]
        } else if held && !p.shifted {
            seq![PressToken::ShiftUp]
        } else {
            seq![]
        };
        toggle + seq![PressToken::Key(p.key)] + press_tokens(ps.drop_first(), p.shifted)
    }
}

/// The rendering of one keystroke token.
pub open spec fn token_text(t: PressToken) -> Seq<char> {
    match t {
        PressToken::ShiftDown => "{-lshift}"@,
        PressToken::ShiftUp => "{+lshift}"@,
        PressToken::Key(k) => "{"@ + k.spec_token() + "}"@,
    }
}

/// The rendering of a token sequence: each token's rendering, in order.
pub open spec fn tokens_text(ts: Seq<PressToken>) -> Seq<char>
    decreases ts.len(),
{
    if ts.len() == 0 {
        Seq::empty()
    } else {
        token_text(ts[0]) + tokens_text(ts.drop_first())
    }
}

/// The rendering of a run of keystrokes, starting with shift released.
pub open spec fn presses_text(ps: Seq<KeyPress>) -> Seq<char> {
    tokens_text(press_tokens(ps, false))
}

proof fn lemma_tokens_text_single(t: PressToken)
    ensures
        tokens_text(seq![t]) == token_text(t),
{
    let s = seq![t];
    assert(s.drop_first() =~= Seq::<PressToken>::empty());
    assert(s[0] == t);
    assert(tokens_text(Seq::<PressToken>::empty()) == Seq::<char>::empty());
    assert(tokens_text(s) == token_text(t) + tokens_text(s.drop_first()));
    assert(token_text(t) + Seq::<char>::empty() =~= token_text(t));
}

proof fn lemma_tokens_text_concat(a: Seq<PressToken>, b: Seq<PressToken>)
    ensures
        tokens_text(a + b) == tokens_text(a) + tokens_text(b),
    decreases a.len(),
{
    if a.len() == 0 {
        assert(a + b =~= b);
        assert(tokens_text(a) + tokens_text(b) =~= tokens_text(b));
    } else {
        assert((a + b).drop_first() =~= a.drop_first() + b);
        lemma_tokens_text_concat(a.drop_first(), b);
        assert(tokens_text(a + b) =~= tokens_text(a) + tokens_text(b));
    }
}

/// The held modifiers of a shortcut of position below `n`, in ascending order, each
/// as `{` then `sign` then its token then `}`.
pub open spec fn chord_modifiers(s: Shortcut, n: int, sign: Seq<char>) -> Seq<char>
    decreases n,
{
    if n <= 0 {
        Seq::empty()
    } else if s.modifiers.holds(n - 1) {
        chord_modifiers(s, n - 1, sign) + "{"@ + sign + Modifier::from_rank(n - 1).spec_token()
            + "}"@
    } else {
        chord_modifiers(s, n - 1, sign)
    }
}

/// The rendering of a shortcut inside a macro: the presses of its modifiers in sorted
/// order, its key in braces, then the releases of its modifiers in the same order.
pub open spec fn chord_text(s: Shortcut) -> Seq<char> {
    chord_modifiers(s, 8, "-"@) + "{"@ + KeyLayer {
        keypad_state: s.keypad,
        key: Key::NonModifier(s.non_modifier),
    }.spec_token() + "}"@ + chord_modifiers(s, 8, "+"@)
}

/// The rendering of one resolved fragment.
pub open spec fn emission_text(e: Emission) -> Seq<char> {
    match e {
        Emission::Presses(ps) => presses_text(ps),
        Emission::Chord(s) => chord_text(s),
    }
}

/// The rendering of a resolved macro: its fragments' renderings, in order.
pub open spec fn body_text(es: Seq<Emission>) -> Seq<char>
    decreases es.len(),
{
    if es.len() == 0 {
        Seq::empty()
    } else {
        body_text(es.drop_last()) + emission_text(es.last())
    }
}

fn append_token(out: &mut String, t: PressToken)
    ensures
        final(out)@ == old(out)@ + token_text(t),
{
    match t {
        PressToken::ShiftDown => out.append("{-lshift}"),
        PressToken::ShiftUp => out.append("{+lshift}"),
        PressToken::Key(k) => {
            out.append("{");
            out.append(k.token());
            out.append("}");
        },
    }
}

/// Renders keystrokes with the fewest shift toggles.
pub fn presses_string(ps: &Vec<KeyPress>) -> (r: String)
    ensures
        r@ == presses_text(ps@),
{
    let mut out = String::new();
    let mut held = false;
    let mut i: usize = 0;
    assert(ps@.skip(0) =~= ps@);
    assert(out@ + presses_text(ps@) =~= presses_text(ps@));
    while i < ps.len()
        invariant
            i <= ps@.len(),
            out@ + tokens_text(press_tokens(ps@.skip(i as int), held)) == presses_text(ps@),
        decreases ps@.len() - i,
    {
        let p = ps[i];
        let ghost rest = ps@.skip(i as int);
        let ghost old_out = out@;
        let ghost toggle = if !held && p.shifted {
            seq![PressToken::ShiftDown]
        } else if held && !p.shifted {
            seq![PressToken::ShiftUp]
        } else {
            seq![]
        };
        let ghost next = press_tokens(ps@.skip(i + 1), p.shifted);
        proof {
            assert(rest[0] == p);
            assert(rest.drop_first() =~= ps@.skip(i + 1));
            assert(press_tokens(rest, held) == toggle + seq![PressToken::Key(p.key)] + next);
            lemma_tokens_text_concat(toggle + seq![PressToken::Key(p.key)], next);
            lemma_tokens_text_concat(toggle, seq![PressToken::Key(p.key)]);
            lemma_tokens_text_single(PressToken::Key(p.key));
            if !held && p.shifted {
                lemma_tokens_text_single(PressToken::ShiftDown);
            } else if held && !p.shifted {
                lemma_tokens_text_single(PressToken::ShiftUp);
            } else {
                assert(tokens_text(toggle) == Seq::<char>::empty());
            }
        }
        if !held && p.shifted {
            append_token(&mut out, PressToken::ShiftDown);
        } else if held && !p.shifted {
            append_token(&mut out, PressToken::ShiftUp);
        }
        assert(out@ == old_out + tokens_text(toggle));
        append_token(&mut out, PressToken::Key(p.key));
        held = p.shifted;
        i = i + 1;
    }
    proof {
        assert(ps@.skip(i as int).len() == 0);
        assert(ps@.skip(i as int) =~= Seq::<KeyPress>::empty());
        if held {
            lemma_tokens_text_single(PressToken::ShiftUp);
        } else {
            assert(tokens_text(press_tokens(ps@.skip(i as int), held)) =~= Seq::<char>::empty());
        }
    }
    if held {
        append_token(&mut out, PressToken::ShiftUp);
    }
    proof {
        assert(out@ =~= presses_text(ps@));
    }
    out
}

/// Renders a shortcut used inside a macro: modifier presses, the key, the releases.
pub fn chord_string(s: &Shortcut) -> (r: String)
    ensures
        r@ == chord_text(*s),
{
    let mut presses = String::new();
    let mut releases = String::new();
    let mut i: usize = 0;
    while i < 8
        invariant
            i <= 8,
            presses@ == chord_modifiers(*s, i as int, "-"@),
            releases@ == chord_modifiers(*s, i as int, "+"@),
        decreases 8 - i,
    {
        if s.modifiers.holds_rank(i) {
            let m = Modifier::at_rank(i);
            let ghost before = (presses@, releases@);
            presses.append("{");
            presses.append("-");
            presses.append(m.token());
            presses.append("}");
            releases.append("{");
            releases.append("+");
            releases.append(m.token());
            releases.append("}");
            assert(presses@ =~= before.0 + "{"@ + "-"@ + m.spec_token() + "}"@);
            assert(releases@ =~= before.1 + "{"@ + "+"@ + m.spec_token() + "}"@);
        }
        i = i + 1;
    }
    let base = KeyLayer::new(s.keypad, Key::NonModifier(s.non_modifier)).token();
    let mut out = presses;
    out.append("{");
    out.append(base.as_str());
    out.append("}");
    out.append(releases.as_str());
    out
}

impl MacroPart {
    /// Renders the fragment.
    pub fn to_string(&self) -> (r: String)
        ensures
            r@ == emission_text(self@),
    {
        match self {
            MacroPart::KeyPresses(v) => presses_string(v),
            MacroPart::Shortcut(s) => chord_string(s),
        }
    }
}

impl MacroOutput {
    /// Renders the macro body.
    pub fn to_string(&self) -> (r: String)
        ensures
            r@ == body_text(self@),
    {
        let mut out = String::new();
        let mut i: usize = 0;
        while i < self.0.len()
            invariant
                i <= self.0@.len(),
                out@ == body_text(self@.subrange(0, i as int)),
            decreases self.0@.len() - i,
        {
            let part = self.0[i].to_string();
            proof {
                assert(self@.subrange(0, i + 1).drop_last() =~= self@.subrange(0, i as int));
            }
            out.append(part.as_str());
            i = i + 1;
        }
        assert(self@.subrange(0, self.0@.len() as int) =~= self@);
        out
    }
}

/// Number of shift presses among rendered tokens.
pub open spec fn shift_downs(ts: Seq<PressToken>) -> nat
    decreases ts.len(),
{
    if ts.len() == 0 {
        0
    } else {
        (if ts[0] is ShiftDown {
            1nat
        } else {
            0nat
        }) + shift_downs(ts.drop_first())
    }
}

/// Number of maximal runs of shifted keystrokes; each run is counted at its last
/// keystroke.
pub open spec fn shifted_runs(ps: Seq<KeyPress>) -> nat
    decreases ps.len(),
{
    if ps.len() == 0 {
        0
    } else {
        (if ps[0].shifted && (ps.len() == 1 || !ps[1].shifted) {
            1nat
        } else {
            0nat
        }) + shifted_runs(ps.drop_first())
    }
}

/// Number of maximal runs of characters that need shift; each run is counted at its
/// last character.
pub open spec fn shift_runs(s: Seq<char>) -> nat
    decreases s.len(),
{
    if s.len() == 0 {
        0
    } else {
        (if needs_shift(s[0]) && (s.len() == 1 || !needs_shift(s[1])) {
            1nat
        } else {
            0nat
        }) + shift_runs(s.drop_first())
    }
}

proof fn lemma_shift_downs_concat(a: Seq<PressToken>, b: Seq<PressToken>)
    ensures
        shift_downs(a + b) == shift_downs(a) + shift_downs(b),
    decreases a.len(),
{
    if a.len() == 0 {
        assert(a + b =~= b);
    } else {
        assert((a + b).drop_first() =~= a.drop_first() + b);
        lemma_shift_downs_concat(a.drop_first(), b);
    }
}

proof fn lemma_shift_downs_single(t: PressToken)
    ensures
        shift_downs(seq![t]) == if t is ShiftDown {
            1nat
        } else {
            0nat
        },
{
    let s = seq![t];
    assert(s.drop_first() =~= Seq::<PressToken>::empty());
    assert(s[0] == t);
    assert(shift_downs(Seq::<PressToken>::empty()) == 0);
    assert(shift_downs(s) == (if t is ShiftDown {
        1nat
    } else {
        0nat
    }) + shift_downs(s.drop_first()));
}

proof fn lemma_shift_downs_runs(ps: Seq<KeyPress>, held: bool)
    ensures
        shift_downs(press_tokens(ps, held)) + (if held && ps.len() > 0 && ps[0].shifted {
            1nat
        } else {
            0nat
        }) == shifted_runs(ps),
    decreases ps.len(),
{
    if ps.len() == 0 {
        if held {
            assert(seq![PressToken::ShiftUp].drop_first() =~= Seq::<PressToken>::empty());
            lemma_shift_downs_single(PressToken::ShiftUp);
        } else {
            assert(shift_downs(press_tokens(ps, held)) == 0);
        }
    } else {
        let p = ps[0];
        let toggle = if !held && p.shifted {
            seq![PressToken::ShiftDown]
        } else if held && !p.shifted {
            seq![PressToken::ShiftUp]
        } else {
            seq![]
        };
        let key = seq![PressToken::Key(p.key)];
        let rest = press_tokens(ps.drop_first(), p.shifted);
        lemma_shift_downs_concat(toggle + key, rest);
        lemma_shift_downs_concat(toggle, key);
        assert(key.drop_first() =~= Seq::<PressToken>::empty());
        lemma_shift_downs_single(PressToken::Key(p.key));
        if toggle.len() > 0 {
            lemma_shift_downs_single(toggle[0]);
            assert(toggle =~= seq![toggle[0]]);
        } else {
            assert(shift_downs(toggle) == 0);
        }
        assert(shift_downs(toggle) == if !held && p.shifted {
            1nat
        } else {
            0nat
        });
        assert(press_tokens(ps, held) == toggle + key + rest);
        lemma_shift_downs_runs(ps.drop_first(), p.shifted);
        if ps.len() > 1 {
            assert(ps.drop_first()[0] == ps[1]);
        }
    }
}

/// Number of shift releases among rendered tokens.
pub open spec fn shift_ups(ts: Seq<PressToken>) -> nat
    decreases ts.len(),
{
    if ts.len() == 0 {
        0
    } else {
        (if ts[0] is ShiftUp {
            1nat
        } else {
            0nat
        }) + shift_ups(ts.drop_first())
    }
}

proof fn lemma_shift_ups_concat(a: Seq<PressToken>, b: Seq<PressToken>)
    ensures
        shift_ups(a + b) == shift_ups(a) + shift_ups(b),
    decreases a.len(),
{
    if a.len() == 0 {
        assert(a + b =~= b);
    } else {
        assert((a + b).drop_first() =~= a.drop_first() + b);
        lemma_shift_ups_concat(a.drop_first(), b);
    }
}

proof fn lemma_shift_ups_single(t: PressToken)
    ensures
        shift_ups(seq![t]) == if t is ShiftUp {
            1nat
        } else {
            0nat
        },
{
    let s = seq![t];
    assert(s.drop_first() =~= Seq::<PressToken>::empty());
    assert(s[0] == t);
    assert(shift_ups(Seq::<PressToken>::empty()) == 0);
    assert(shift_ups(s) == (if t is ShiftUp {
        1nat
    } else {
        0nat
    }) + shift_ups(s.drop_first()));
}

proof fn lemma_shift_ups_runs(ps: Seq<KeyPress>, held: bool)
    ensures
        shift_ups(press_tokens(ps, held)) == shifted_runs(ps) + (if held && (ps.len() == 0
            || !ps[0].shifted) {
            1nat
        } else {
            0nat
        }),
    decreases ps.len(),
{
    if ps.len() == 0 {
        if held {
            lemma_shift_ups_single(PressToken::ShiftUp);
        } else {
            assert(shift_ups(press_tokens(ps, held)) == 0);
        }
    } else {
        let p = ps[0];
        let toggle = if !held && p.shifted {
            seq![PressToken::ShiftDown]
        } else if held && !p.shifted {
            seq![PressToken::ShiftUp]
        } else {
            seq![]
        };
        let key = seq![PressToken::Key(p.key)];
        let rest = press_tokens(ps.drop_first(), p.shifted);
        lemma_shift_ups_concat(toggle + key, rest);
        lemma_shift_ups_concat(toggle, key);
        lemma_shift_ups_single(PressToken::Key(p.key));
        if toggle.len() > 0 {
            lemma_shift_ups_single(toggle[0]);
            assert(toggle =~= seq![toggle[0]]);
        } else {
            assert(shift_ups(toggle) == 0);
        }
        assert(shift_ups(toggle) == if held && !p.shifted {
            1nat
        } else {
            0nat
        });
        assert(press_tokens(ps, held) == toggle + key + rest);
        lemma_shift_ups_runs(ps.drop_first(), p.shifted);
        if ps.len() > 1 {
            assert(ps.drop_first()[0] == ps[1]);
        }
    }
}

proof fn lemma_runs_of_text(s: Seq<char>)
    requires
        typeable(s),
    ensures
        shifted_runs(presses_of(s)) == shift_runs(s),
    decreases s.len(),
{
    if s.len() > 0 {
        assert(presses_of(s).drop_first() =~= presses_of(s.drop_first()));
        assert(typeable(s.drop_first())) by {
            assert forall|i: int| 0 <= i < s.drop_first().len() implies (#[trigger] char_key(
                s.drop_first()[i],
            )) is Some by {
                assert(s.drop_first()[i] == s[i + 1]);
            }
        }
        lemma_runs_of_text(s.drop_first());
    }
}

/// A macro that types a text renders as the text's keystroke tokens, and among them
/// shift is pressed once per maximal run of characters that need shift, however long
/// the runs are, and released once per run too.
pub proof fn lemma_shift_press_per_run(s: Seq<char>, system: System)
    requires
        typeable(s),
    ensures
        body_text(resolve(seq![Fragment::Presses(presses_of(s))], system)) == tokens_text(
            press_tokens(presses_of(s), false),
        ),
        shift_downs(press_tokens(presses_of(s), false)) == shift_runs(s),
        shift_ups(press_tokens(presses_of(s), false)) == shift_runs(s),
{
    lemma_shift_downs_runs(presses_of(s), false);
    lemma_shift_ups_runs(presses_of(s), false);
    lemma_runs_of_text(s);
    let e = resolve(seq![Fragment::Presses(presses_of(s))], system);
    assert(e =~= seq![Emission::Presses(presses_of(s))]);
    assert(e.drop_last() =~= Seq::<Emission>::empty());
    assert(body_text(Seq::<Emission>::empty()) == Seq::<char>::empty());
    assert(body_text(e) == body_text(e.drop_last()) + emission_text(e.last()));
    assert(body_text(e) =~= presses_text(presses_of(s)));
}

} // verus!
