use archie::console::{key_command, key_hints, listing_addresses, Command, Key, LogKey, Screen};

#[test]
fn screens_have_names_and_numbers() {
    assert_eq!(Screen::McuState.name(), "MCU State");
    assert_eq!(Screen::Logging.name(), "Logging");
    assert_eq!(Screen::Terminal.name(), "Serial Terminal");
    assert_eq!(Screen::at(2), Some(Screen::Terminal));
    assert_eq!(Screen::at(3), None);
}

#[test]
fn q_quits_and_digits_switch_screens_everywhere() {
    assert_eq!(key_command(Screen::Terminal, Key::Char('q'), false), Command::Quit);
    assert_eq!(key_command(Screen::McuState, Key::Char('2'), true), Command::Show(Screen::Logging));
    assert_eq!(key_command(Screen::Logging, Key::Char('3'), true), Command::Show(Screen::Terminal));
    assert_eq!(key_command(Screen::Logging, Key::Char('1'), true), Command::Show(Screen::McuState));
    assert_eq!(key_command(Screen::Logging, Key::Char('0'), true), Command::Show(Screen::McuState));
    assert_eq!(key_command(Screen::Terminal, Key::Char('9'), true), Command::Show(Screen::McuState));
}

#[test]
fn core_keys_step_run_and_break() {
    assert_eq!(key_command(Screen::McuState, Key::Char('o'), true), Command::Step);
    assert_eq!(key_command(Screen::McuState, Key::Char('o'), false), Command::Nothing);
    assert_eq!(key_command(Screen::McuState, Key::Char('r'), true), Command::Run);
    assert_eq!(key_command(Screen::McuState, Key::Char('b'), false), Command::Break);
    assert_eq!(key_command(Screen::McuState, Key::Up, false), Command::Nothing);
    assert_eq!(key_command(Screen::Terminal, Key::Char('o'), true), Command::Nothing);
}

#[test]
fn log_keys_drive_the_log_viewer() {
    assert_eq!(key_command(Screen::Logging, Key::Char('h'), false), Command::Log(LogKey::Hide));
    assert_eq!(key_command(Screen::Logging, Key::Char(' '), false), Command::Log(LogKey::Space));
    assert_eq!(key_command(Screen::Logging, Key::PageDown, false), Command::Log(LogKey::NextPage));
    assert_eq!(key_command(Screen::Logging, Key::Esc, false), Command::Log(LogKey::Escape));
    assert_eq!(key_command(Screen::Logging, Key::Char('z'), false), Command::Nothing);
    assert_eq!(key_command(Screen::Logging, Key::Other, false), Command::Nothing);
}

#[test]
fn listing_shows_the_words_around_the_program_counter() {
    assert_eq!(listing_addresses(0x10, 5), vec![0x0C, 0x0E, 0x10, 0x12, 0x14, 0x16]);
    assert_eq!(listing_addresses(2, 8), vec![0, 2, 4, 6, 8, 10, 12, 14, 16]);
    assert_eq!(listing_addresses(0xFFFE, 2), vec![0xFFFC, 0xFFFE, 0x0000]);
    assert_eq!(listing_addresses(7, 0), vec![7]);
}

#[test]
fn key_hints_follow_the_screen_and_the_core() {
    assert_eq!(key_hints(Screen::McuState, true), vec!["Single Step: <O>", "Run: <R>", "Quit: <Q>"]);
    assert_eq!(key_hints(Screen::McuState, false), vec!["Stop: <B>", "Quit: <Q>"]);
    assert_eq!(key_hints(Screen::Logging, false), vec!["Hide: <H>", "Quit: <Q>"]);
    assert_eq!(key_hints(Screen::Terminal, true), vec!["Quit: <Q>"]);
}
