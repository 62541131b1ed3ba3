//! The decisions of the emulator's console: which screen shows, and what a
//! key press asks of the core or the log viewer.
use vstd::prelude::*;

verus! {

/// The console's screens, in the order of their number keys `1`, `2`, `3`.
#[derive(Clone, Copy, Debug, PartialEq, Eq, Structural, PartialOrd, Ord)]
pub enum Screen {
    McuState,
    Logging,
    Terminal,
}

impl Screen {
    pub open spec fn spec_name(self) -> Seq<char> {
        match self {
            Screen::McuState => "MCU State"@,
            Screen::Logging => "Logging"@,
            Screen::Terminal => "Serial Terminal"@,
        }
    }

    /// The screen's title.
    pub fn name(&self) -> (r: &'static str)
        ensures
            r@ == self.spec_name(),
    {
        match self {
            Screen::McuState => "MCU State",
            Screen::Logging => "Logging",
            Screen::Terminal => "Serial Terminal",
        }
    }

    pub open spec fn spec_at(index: u32) -> Option<Screen> {
        if index == 0 {
            Some(Screen::McuState)
        } else if index == 1 {
            Some(Screen::Logging)
        } else if index == 2 {
            Some(Screen::Terminal)
        } else {
            None
        }
    }

    /// The screen at `index` in the screen list.
    pub fn at(index: u32) -> (r: Option<Screen>)
        ensures
            r == Self::spec_at(index),
    {
        match index {
            0 => Some(Screen::McuState),
            1 => Some(Screen::Logging),
            2 => Some(Screen::Terminal),
            _ => None,
        }
    }
}

/// A key press, as far as the console tells keys apart.
#[derive(Clone, Copy, Debug, PartialEq, Eq, Structural)]
pub enum Key {
    Char(char),
    Up,
    Down,
    Left,
    Right,
    PageUp,
    PageDown,
    Esc,
    Other,
}

/// The log viewer's commands.
#[derive(Clone, Copy, Debug, PartialEq, Eq, Structural)]
pub enum LogKey {
    Hide,
    Focus,
    Up,
    Down,
    Left,
    Right,
    Minus,
    Plus,
    PrevPage,
    NextPage,
    Escape,
    Space,
}

/// What a key press asks for.
#[derive(Clone, Copy, Debug, PartialEq, Eq, Structural)]
pub enum Command {
    Quit,
    Show(Screen),
    /// Run one clock cycle (only offered in single-step mode).
    Step,
    /// Leave single-step mode.
    Run,
    /// Enter single-step mode.
    Break,
    Log(LogKey),
    Nothing,
}

/// The screen a digit key selects: `1`..`9` select the screen with that
/// number and `0` the tenth; a number without a screen shows the core state.
pub open spec fn digit_screen(c: char) -> Screen {
    let num = c as u32 - '0' as u32;
    let index: u32 = if num == 0 {
        10
    } else {
        (num - 1) as u32
    };
    match Screen::spec_at(index) {
        Some(s) => s,
        None => Screen::McuState,
    }
}

pub open spec fn spec_log_key(key: Key) -> Option<LogKey> {
    match key {
        Key::Char(c) => if c == 'h' {
            Some(LogKey::Hide)
        } else if c == 'f' {
            Some(LogKey::Focus)
        } else if c == '-' {
            Some(LogKey::Minus)
        } else if c == '+' {
            Some(LogKey::Plus)
        } else if c == ' ' {
            Some(LogKey::Space)
        } else {
            None
        },
        Key::Up => Some(LogKey::Up),
        Key::Down => Some(LogKey::Down),
        Key::Left => Some(LogKey::Left),
        Key::Right => Some(LogKey::Right),
        Key::PageUp => Some(LogKey::PrevPage),
        Key::PageDown => Some(LogKey::NextPage),
        Key::Esc => Some(LogKey::Escape),
        Key::Other => None,
    }
}

/// `q` quits and digits switch screens everywhere; on the core-state screen
/// `o` steps a cycle while in single-step mode, `r` runs and `b` breaks; on
/// the log screen keys drive the log viewer.
pub open spec fn spec_key_command(screen: Screen, key: Key, single_step: bool) -> Command {
    match key {
        Key::Char(c) => if c == 'q' {
            Command::Quit
        } else if '0' <= c && c <= '9' {
            Command::Show(digit_screen(c))
        } else {
            screen_key_command(screen, key, single_step)
        },
        _ => screen_key_command(screen, key, single_step),
    }
}

pub open spec fn screen_key_command(screen: Screen, key: Key, single_step: bool) -> Command {
    match screen {
        Screen::McuState => match key {
            Key::Char(c) => if c == 'o' && single_step {
                Command::Step
            } else if c == 'r' {
                Command::Run
            } else if c == 'b' {
                Command::Break
            } else {
                Command::Nothing
            },
            _ => Command::Nothing,
        },
        Screen::Logging => match spec_log_key(key) {
            Some(k) => Command::Log(k),
            None => Command::Nothing,
        },
        Screen::Terminal => Command::Nothing,
    }
}

fn log_key(key: Key) -> (r: Option<LogKey>)
    ensures
        r == spec_log_key(key),
{
    match key {
        Key::Char('h') => Some(LogKey::Hide),
        Key::Char('f') => Some(LogKey::Focus),
        Key::Char('-') => Some(LogKey::Minus),
        Key::Char('+') => Some(LogKey::Plus),
        Key::Char(' ') => Some(LogKey::Space),
        Key::Up => Some(LogKey::Up),
        Key::Down => Some(LogKey::Down),
        Key::Left => Some(LogKey::Left),
        Key::Right => Some(LogKey::Right),
        Key::PageUp => Some(LogKey::PrevPage),
        Key::PageDown => Some(LogKey::NextPage),
        Key::Esc => Some(LogKey::Escape),
        _ => None,
    }
}

/// Decides what a key press on `screen` asks for; `single_step` is whether
/// the core's debug flag is set.
pub fn key_command(screen: Screen, key: Key, single_step: bool) -> (r: Command)
    ensures
        r == spec_key_command(screen, key, single_step),
{
    if let Key::Char(c) = key {
        if c == 'q' {
            return Command::Quit;
        }
        if '0' <= c && c <= '9' {
            let num: u32 = c as u32 - '0' as u32;
            let index: u32 = if num == 0 {
                10
            } else {
                num - 1
            };
            let shown = match Screen::at(index) {
                Some(s) => s,
                None => Screen::McuState,
            };
            return Command::Show(shown);
        }
    }
    match screen {
        Screen::McuState => match key {
            Key::Char('o') => if single_step {
                Command::Step
            } else {
                Command::Nothing
            },
            Key::Char('r') => Command::Run,
            Key::Char('b') => Command::Break,
            _ => Command::Nothing,
        },
        Screen::Logging => match log_key(key) {
            Some(k) => Command::Log(k),
            None => Command::Nothing,
        },
        Screen::Terminal => Command::Nothing,
    }
}


/// The first address of the program listing: the program counter moved back
/// by the listing's height rounded down to an even number of bytes, stopping
/// at address 0.
pub open spec fn spec_listing_start(pc: u16, height: u16) -> int {
    let back = height - height % 2;
    if pc >= back {
        pc - back
    } else {
        0
    }
}

/// The addresses shown in the program listing, one word per row, from
/// `spec_listing_start` on; there is one row more than `height`, and the
/// addresses wrap around past `0xFFFF`.
pub fn listing_addresses(pc: u16, height: u16) -> (r: Vec<u16>)
    ensures
        r.len() == height + 1,
        forall|i: int|
            0 <= i < r.len() ==> #[trigger] r[i] == (spec_listing_start(pc, height) + 2 * i) % 0x10000,
{
    assert(height & !1u16 == height - height % 2) by (bit_vector);
    let start: u16 = pc.saturating_sub(height & !1u16);
    let mut r: Vec<u16> = Vec::new();
    let mut row: u32 = 0;
    let mut addr: u16 = start;
    while row <= height as u32
        invariant
            row <= height + 1,
            r.len() == row,
            start == spec_listing_start(pc, height),
            addr == (start + 2 * row) % 0x10000,
            forall|i: int| 0 <= i < r.len() ==> #[trigger] r[i] == (start + 2 * i) % 0x10000,
        decreases height + 1 - row,
    {
        r.push(addr);
        addr = addr.wrapping_add(2);
        row = row + 1;
    }
    r
}


/// The key hints under a screen, after the screen numbers: stepping and
/// running while the core waits in single-step mode, stopping while it runs,
/// hiding the log's target list, and always quitting.
pub open spec fn spec_key_hints(screen: Screen, single_step: bool) -> Seq<Seq<char>> {
    let own = match screen {
        Screen::McuState => if single_step {
            seq!["Single Step: <O>"@, "Run: <R>"@]
        } else {
            seq!["Stop: <B>"@]
        },
        Screen::Logging => seq!["Hide: <H>"@],
        Screen::Terminal => Seq::empty(),
    };
    own.push("Quit: <Q>"@)
}

/// The key hints shown on `screen`; `single_step` tells whether the core
/// waits for a step.
pub fn key_hints(screen: Screen, single_step: bool) -> (r: Vec<&'static str>)
    ensures
        r@.len() == spec_key_hints(screen, single_step).len(),
        forall|i: int| 0 <= i < r@.len() ==> #[trigger] r@[i]@ == spec_key_hints(screen, single_step)[i],
{
    let mut r: Vec<&'static str> = Vec::new();
    match screen {
        Screen::McuState => {
            if single_step {
                r.push("Single Step: <O>");
                r.push("Run: <R>");
            } else {
                r.push("Stop: <B>");
            }
        },
        Screen::Logging => {
            r.push("Hide: <H>");
        },
        Screen::Terminal => {},
    }
    r.push("Quit: <Q>");
    r
}

/// The key that each log viewer command is named after: its letter, sign or
/// space, the arrow of the same direction, the page keys for the previous
/// and next page, and escape.
pub open spec fn log_command_key(k: LogKey) -> Key {
    match k {
        LogKey::Hide => Key::Char('h'),
        LogKey::Focus => Key::Char('f'),
        LogKey::Up => Key::Up,
        LogKey::Down => Key::Down,
        LogKey::Left => Key::Left,
        LogKey::Right => Key::Right,
        LogKey::Minus => Key::Char('-'),
        LogKey::Plus => Key::Char('+'),
        LogKey::PrevPage => Key::PageUp,
        LogKey::NextPage => Key::PageDown,
        LogKey::Escape => Key::Esc,
        LogKey::Space => Key::Char(' '),
    }
}

/// On the log screen each log viewer command comes from the key it is named
/// after, and from no other key, in single-step mode or not.
pub proof fn lemma_log_screen_keys(k: LogKey, key: Key, single_step: bool)
    ensures
        spec_key_command(Screen::Logging, log_command_key(k), single_step) == Command::Log(k),
        spec_key_command(Screen::Logging, key, single_step) == Command::Log(k) ==> key == log_command_key(k),
{
}

/// The keys that work on every screen: `q` quits and the digit keys select
/// screens; on the core-state screen `r` runs, `b` breaks and `o` steps only
/// in single-step mode; the serial terminal takes no other key.
pub proof fn lemma_global_keys(screen: Screen, key: Key, single_step: bool)
    ensures
        spec_key_command(screen, Key::Char('q'), single_step) == Command::Quit,
        spec_key_command(screen, Key::Char('1'), single_step) == Command::Show(Screen::McuState),
        spec_key_command(screen, Key::Char('2'), single_step) == Command::Show(Screen::Logging),
        spec_key_command(screen, Key::Char('3'), single_step) == Command::Show(Screen::Terminal),
        spec_key_command(Screen::McuState, Key::Char('r'), single_step) == Command::Run,
        spec_key_command(Screen::McuState, Key::Char('b'), single_step) == Command::Break,
        spec_key_command(Screen::McuState, Key::Char('o'), single_step) == if single_step {
            Command::Step
        } else {
            Command::Nothing
        },
        spec_key_command(Screen::Terminal, key, single_step) is Quit || spec_key_command(
            Screen::Terminal,
            key,
            single_step,
        ) is Show || spec_key_command(Screen::Terminal, key, single_step) is Nothing,
{
}

/// The listing starts at most `height` bytes before the program counter,
/// never past it, and an even program counter is always one of its rows.
pub proof fn lemma_listing_shows_pc(pc: u16, height: u16)
    ensures
        0 <= spec_listing_start(pc, height) <= pc,
        pc - spec_listing_start(pc, height) <= height,
        pc % 2 == 0 ==> exists|i: int| 0 <= i <= height && #[trigger] (spec_listing_start(pc, height) + 2 * i) == pc,
{
    let start = spec_listing_start(pc, height);
    if pc % 2 == 0 {
        let i = (pc - start) / 2;
        assert(start % 2 == 0);
        assert(0 <= i <= height && start + 2 * i == pc);
    }
}

} // verus!
