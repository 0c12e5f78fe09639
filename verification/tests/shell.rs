use pc_keyboard::layouts::Us104Key;
use pc_keyboard::DecodedKey;
use pc_keyboard::HandleControl;
use pc_keyboard::Keyboard;
use pc_keyboard::ScancodeSet1;
use toy_os::task::keyboard::Key;
use toy_os::task::shell::join_from;
use toy_os::task::shell::parse_command;
use toy_os::task::shell::parse_decimal;
use toy_os::task::shell::split_words;
use toy_os::task::shell::word_is;
use toy_os::task::shell::Command;
use toy_os::task::shell::Edit;
use toy_os::task::shell::LineEditor;

fn chars(text: &str) -> Vec<char> {
    text.chars().collect()
}

fn texts(words: &[Vec<char>]) -> Vec<String> {
    words.iter().map(|word| word.iter().collect()).collect()
}

fn type_text(editor: &mut LineEditor, text: &str) -> Vec<Edit> {
    text.chars().map(|c| editor.type_char(c)).collect()
}

#[test]
fn split_words_like_split_whitespace() {
    let lines = [
        "",
        " ",
        "help",
        "  help  ",
        "echo a  b\tc",
        "kill 7",
        "\t\n x\u{a0}y \u{3000}z\u{2003}",
        "a\u{85}b\u{1680}c\u{2028}d\u{2029}e\u{202f}f\u{205f}g",
        "a\u{200b}b \u{feff}c",
        "one",
        " lead",
        "trail ",
    ];
    for line in lines {
        let expected: Vec<String> = line.split_whitespace().map(String::from).collect();
        assert_eq!(texts(&split_words(&chars(line))), expected, "line {:?}", line);
    }
}

#[test]
fn split_words_exact() {
    assert_eq!(texts(&split_words(&chars("  echo  hello   world "))), vec!["echo", "hello", "world"]);
    assert!(split_words(&chars(" \t ")).is_empty());
}

#[test]
fn join_from_puts_one_space_between_words() {
    let words = split_words(&chars("echo  hello   big world"));
    assert_eq!(join_from(&words, 1), chars("hello big world"));
    assert_eq!(join_from(&words, 0), chars("echo hello big world"));
    assert_eq!(join_from(&words, 3), chars("world"));
    assert_eq!(join_from(&words, 4), chars(""));
}

#[test]
fn word_is_compares_whole_words() {
    assert!(word_is(&chars("help"), "help"));
    assert!(!word_is(&chars("hel"), "help"));
    assert!(!word_is(&chars("helps"), "help"));
    assert!(!word_is(&chars("Help"), "help"));
    assert!(word_is(&chars(""), ""));
    assert!(!word_is(&chars(""), "ps"));
}

#[test]
fn parse_decimal_like_the_standard_parser() {
    let words = [
        "0", "7", "007", "42", "+42", "+0", "+", "", "-1", "-0", "1a", "a1", "++1", "1+", " 1",
        "1 ", "18446744073709551615", "18446744073709551616", "18446744073709551620",
        "99999999999999999999999", "+18446744073709551615", "１２", "1_000", "0x10",
    ];
    for word in words {
        assert_eq!(parse_decimal(&chars(word), u64::MAX), word.parse::<u64>().ok(), "word {:?}", word);
    }
}

#[test]
fn parse_decimal_respects_the_limit() {
    assert_eq!(parse_decimal(&chars("255"), 255), Some(255));
    assert_eq!(parse_decimal(&chars("256"), 255), None);
    assert_eq!(parse_decimal(&chars("0"), 0), Some(0));
    assert_eq!(parse_decimal(&chars("1"), 0), None);
    assert_eq!(parse_decimal(&chars("5"), 5), Some(5));
    assert_eq!(parse_decimal(&chars("6"), 5), None);
    assert_eq!(parse_decimal(&chars("10"), 9), None);
    assert_eq!(parse_decimal(&chars("000"), 0), Some(0));
    let words = ["0", "255", "256", "300", "65535", "65536", "+77"];
    for word in words {
        assert_eq!(
            parse_decimal(&chars(word), u8::MAX as u64),
            word.parse::<u8>().ok().map(u64::from),
        );
        assert_eq!(
            parse_decimal(&chars(word), u16::MAX as u64),
            word.parse::<u16>().ok().map(u64::from),
        );
    }
}

#[test]
fn plain_commands() {
    assert_eq!(parse_command(&chars("help")), Command::Help);
    assert_eq!(parse_command(&chars("clear")), Command::Clear);
    assert_eq!(parse_command(&chars("shutdown")), Command::Shutdown);
    assert_eq!(parse_command(&chars("heap")), Command::Heap);
    assert_eq!(parse_command(&chars("alloc_test")), Command::AllocTest);
    assert_eq!(parse_command(&chars("snake")), Command::Snake);
    assert_eq!(parse_command(&chars("panic")), Command::Panic);
    assert_eq!(parse_command(&chars("ps")), Command::Ps);
}

#[test]
fn commands_ignore_surrounding_space_and_extra_words() {
    assert_eq!(parse_command(&chars("   help   ")), Command::Help);
    assert_eq!(parse_command(&chars("ps -a")), Command::Ps);
    assert_eq!(parse_command(&chars("\tclear now")), Command::Clear);
    assert_eq!(parse_command(&chars("kill 3 4")), Command::Kill(3));
}

#[test]
fn empty_line_asks_for_nothing() {
    assert_eq!(parse_command(&chars("")), Command::Nothing);
    assert_eq!(parse_command(&chars("    ")), Command::Nothing);
    assert_eq!(parse_command(&chars("\t")), Command::Nothing);
}

#[test]
fn echo_joins_its_arguments() {
    assert_eq!(parse_command(&chars("echo hello   world")), Command::Echo(chars("hello world")));
    assert_eq!(parse_command(&chars("echo")), Command::Echo(chars("")));
    assert_eq!(parse_command(&chars("echo  x ")), Command::Echo(chars("x")));
}

#[test]
fn kill_reads_a_task_id() {
    assert_eq!(parse_command(&chars("kill 0")), Command::Kill(0));
    assert_eq!(parse_command(&chars("kill 17")), Command::Kill(17));
    assert_eq!(parse_command(&chars("kill +3")), Command::Kill(3));
    assert_eq!(
        parse_command(&chars("kill 18446744073709551615")),
        Command::Kill(u64::MAX)
    );
}

#[test]
fn kill_without_an_id_shows_usage() {
    assert_eq!(parse_command(&chars("kill")), Command::KillUsage);
    assert_eq!(parse_command(&chars("kill   ")), Command::KillUsage);
}

#[test]
fn kill_with_a_bad_id_names_it() {
    assert_eq!(parse_command(&chars("kill abc")), Command::KillInvalid(chars("abc")));
    assert_eq!(parse_command(&chars("kill -1")), Command::KillInvalid(chars("-1")));
    assert_eq!(
        parse_command(&chars("kill 18446744073709551616")),
        Command::KillInvalid(chars("18446744073709551616"))
    );
}

#[test]
fn sleep_reads_a_tick_count() {
    assert_eq!(parse_command(&chars("sleep 1")), Command::Sleep(1));
    assert_eq!(parse_command(&chars("sleep 250")), Command::Sleep(250));
    assert_eq!(parse_command(&chars("sleep")), Command::SleepUsage);
    assert_eq!(parse_command(&chars("sleep 0")), Command::SleepZero);
    assert_eq!(parse_command(&chars("sleep 00")), Command::SleepZero);
    assert_eq!(parse_command(&chars("sleep soon")), Command::SleepInvalid(chars("soon")));
    assert_eq!(parse_command(&chars("sleep -5")), Command::SleepInvalid(chars("-5")));
    let most = format!("sleep {}", usize::MAX);
    assert_eq!(parse_command(&chars(&most)), Command::Sleep(usize::MAX));
    assert_eq!(
        parse_command(&chars("sleep 99999999999999999999999")),
        Command::SleepInvalid(chars("99999999999999999999999"))
    );
}

#[test]
fn unknown_command_is_named() {
    assert_eq!(parse_command(&chars("frobnicate now")), Command::Unknown(chars("frobnicate")));
    assert_eq!(parse_command(&chars("HELP")), Command::Unknown(chars("HELP")));
    assert_eq!(parse_command(&chars("helpme")), Command::Unknown(chars("helpme")));
    assert_eq!(parse_command(&chars("kil 3")), Command::Unknown(chars("kil")));
}

#[test]
fn typed_characters_join_the_line() {
    let mut editor = LineEditor::new();
    assert_eq!(type_text(&mut editor, "ps"), vec![Edit::Typed('p'), Edit::Typed('s')]);
    assert_eq!(editor.type_char('\n'), Edit::Entered(chars("ps")));
    assert_eq!(editor.type_char('\n'), Edit::Entered(chars("")));
}

#[test]
fn backspace_takes_the_last_character_back() {
    let mut editor = LineEditor::new();
    assert_eq!(editor.type_char('\u{8}'), Edit::Ignored);
    type_text(&mut editor, "kilo");
    assert_eq!(editor.type_char('\u{8}'), Edit::Erased);
    assert_eq!(editor.type_char('l'), Edit::Typed('l'));
    assert_eq!(editor.type_char('\n'), Edit::Entered(chars("kill")));
    assert_eq!(editor.type_char('\u{8}'), Edit::Ignored);
}

#[test]
fn control_characters_are_ignored() {
    let mut editor = LineEditor::new();
    assert_eq!(editor.type_char('a'), Edit::Typed('a'));
    assert_eq!(editor.type_char('\t'), Edit::Ignored);
    assert_eq!(editor.type_char('\u{1b}'), Edit::Ignored);
    assert_eq!(editor.type_char('\u{7f}'), Edit::Ignored);
    assert_eq!(editor.type_char('\r'), Edit::Ignored);
    assert_eq!(editor.type_char('\u{0}'), Edit::Ignored);
    assert_eq!(editor.type_char(' '), Edit::Typed(' '));
    assert_eq!(editor.type_char('é'), Edit::Typed('é'));
    assert_eq!(editor.type_char('\u{80}'), Edit::Typed('\u{80}'));
    assert_eq!(editor.type_char('\n'), Edit::Entered(chars("a é\u{80}")));
}

#[test]
fn a_typed_line_is_read_as_a_command() {
    let mut editor = LineEditor::new();
    let edits = type_text(&mut editor, "kill 12x\u{8}\n");
    match edits.last().unwrap() {
        Edit::Entered(line) => assert_eq!(parse_command(line), Command::Kill(12)),
        other => panic!("the line was not entered: {:?}", other),
    }
}

#[test]
fn every_character_separates_words_as_the_standard_library_has_it() {
    for code in 0..=0x10ffffu32 {
        if let Some(c) = char::from_u32(code) {
            let words = split_words(&vec!['a', c, 'b']);
            if c.is_whitespace() {
                assert_eq!(words.len(), 2, "U+{:04X}", code);
            } else {
                assert_eq!(words, vec![vec!['a', c, 'b']], "U+{:04X}", code);
            }
        }
    }
}

#[test]
fn every_control_character_is_ignored_and_no_other() {
    let mut editor = LineEditor::new();
    for code in 0..=0x10ffffu32 {
        if let Some(c) = char::from_u32(code) {
            if c == '\n' || c == '\u{8}' {
                continue;
            }
            let edit = editor.type_char(c);
            if c.is_ascii_control() {
                assert_eq!(edit, Edit::Ignored, "U+{:04X}", code);
            } else {
                assert_eq!(edit, Edit::Typed(c), "U+{:04X}", code);
                assert_eq!(editor.type_char('\u{8}'), Edit::Erased);
            }
        }
    }
    assert_eq!(editor.type_char('\n'), Edit::Entered(Vec::new()));
}

#[test]
fn keys_that_type_nothing_leave_the_line_alone() {
    let mut editor = LineEditor::new();
    assert_eq!(editor.type_key(Some(Key::Unicode('p'))), Edit::Typed('p'));
    assert_eq!(editor.type_key(None), Edit::Ignored);
    assert_eq!(editor.type_key(Some(Key::ArrowUp)), Edit::Ignored);
    assert_eq!(editor.type_key(Some(Key::ArrowLeft)), Edit::Ignored);
    assert_eq!(editor.type_key(Some(Key::Other)), Edit::Ignored);
    assert_eq!(editor.type_key(Some(Key::Unicode('s'))), Edit::Typed('s'));
    assert_eq!(editor.type_key(Some(Key::Unicode('x'))), Edit::Typed('x'));
    assert_eq!(editor.type_key(Some(Key::Unicode('\u{8}'))), Edit::Erased);
    assert_eq!(editor.type_key(Some(Key::Unicode('\n'))), Edit::Entered(chars("ps")));
}

#[test]
fn scancodes_become_a_command_line() {
    // Make codes of k, i, l, l, space, 7 and Enter, each followed by its
    // break code.
    let makes = [0x25u8, 0x17, 0x26, 0x26, 0x39, 0x08, 0x1c];
    let mut keyboard = Keyboard::new(ScancodeSet1::new(), Us104Key, HandleControl::Ignore);
    let mut editor = LineEditor::new();
    let mut entered = None;
    for make in makes {
        for scancode in [make, make | 0x80] {
            let key = match keyboard.add_byte(scancode) {
                Ok(Some(event)) => match keyboard.process_keyevent(event) {
                    Some(DecodedKey::Unicode(c)) => Some(Key::Unicode(c)),
                    Some(DecodedKey::RawKey(_)) => Some(Key::Other),
                    None => None,
                },
                _ => None,
            };
            if let Edit::Entered(line) = editor.type_key(key) {
                entered = Some(line);
            }
        }
    }
    assert_eq!(parse_command(&entered.unwrap()), Command::Kill(7));
}
