use rgb_workspace::terminal::keys::{
    convert_key_to_bytes, convert_keys_to_bytes, KeyCode, KeyEvent, KeyModifiers,
};

fn plain(code: KeyCode) -> Vec<u8> {
    convert_key_to_bytes(KeyEvent::new(code, KeyModifiers::none()))
}

fn with(code: KeyCode, modifiers: KeyModifiers) -> Vec<u8> {
    convert_key_to_bytes(KeyEvent::new(code, modifiers))
}

#[test]
fn printable_characters_are_sent_as_utf8() {
    assert_eq!(plain(KeyCode::Char('a')), b"a".to_vec());
    assert_eq!(plain(KeyCode::Char('Z')), b"Z".to_vec());
    assert_eq!(plain(KeyCode::Char(' ')), b" ".to_vec());
    for c in ['é', 'ß', '€', '中', '🦀', '\u{7F}', '\u{80}', '\u{7FF}', '\u{800}', '\u{FFFF}', '\u{10000}', '\u{10FFFF}'] {
        assert_eq!(plain(KeyCode::Char(c)), c.to_string().into_bytes());
    }
}

#[test]
fn control_letters_are_sent_as_control_codes() {
    for (i, c) in ('a'..='z').enumerate() {
        assert_eq!(with(KeyCode::Char(c), KeyModifiers::control()), vec![i as u8 + 1]);
    }
    for (i, c) in ('A'..='Z').enumerate() {
        assert_eq!(with(KeyCode::Char(c), KeyModifiers::control()), vec![i as u8 + 1]);
    }
    assert_eq!(with(KeyCode::Char('c'), KeyModifiers::control()), vec![0x03]);
    assert_eq!(with(KeyCode::Char(' '), KeyModifiers::control()), vec![0x00]);
    assert_eq!(with(KeyCode::Char('\\'), KeyModifiers::control()), vec![0x1C]);
    assert_eq!(with(KeyCode::Char(']'), KeyModifiers::control()), vec![0x1D]);
    assert_eq!(with(KeyCode::Char('^'), KeyModifiers::control()), vec![0x1E]);
    assert_eq!(with(KeyCode::Char('_'), KeyModifiers::control()), vec![0x1F]);
    assert_eq!(with(KeyCode::Char('1'), KeyModifiers::control()), Vec::<u8>::new());
    assert_eq!(with(KeyCode::Char('é'), KeyModifiers::control()), Vec::<u8>::new());
}

#[test]
fn alt_characters_are_sent_after_escape() {
    assert_eq!(with(KeyCode::Char('x'), KeyModifiers::alt()), vec![0x1B, b'x']);
    let mut expected = vec![0x1B];
    expected.extend("é".as_bytes());
    assert_eq!(with(KeyCode::Char('é'), KeyModifiers::alt()), expected);
}

#[test]
fn named_keys_follow_the_table() {
    assert_eq!(plain(KeyCode::Enter), vec![0x0D]);
    assert_eq!(plain(KeyCode::Backspace), vec![0x7F]);
    assert_eq!(plain(KeyCode::Tab), vec![0x09]);
    assert_eq!(with(KeyCode::Tab, KeyModifiers::shift()), b"\x1B[Z".to_vec());
    assert_eq!(plain(KeyCode::Up), b"\x1B[A".to_vec());
    assert_eq!(plain(KeyCode::Down), b"\x1B[B".to_vec());
    assert_eq!(plain(KeyCode::Right), b"\x1B[C".to_vec());
    assert_eq!(plain(KeyCode::Left), b"\x1B[D".to_vec());
    assert_eq!(with(KeyCode::Up, KeyModifiers::alt()), b"\x1B\x1B[A".to_vec());
    assert_eq!(with(KeyCode::Down, KeyModifiers::alt()), b"\x1B\x1B[B".to_vec());
    assert_eq!(with(KeyCode::Right, KeyModifiers::alt()), b"\x1B\x1B[C".to_vec());
    assert_eq!(with(KeyCode::Left, KeyModifiers::alt()), b"\x1B\x1B[D".to_vec());
    assert_eq!(plain(KeyCode::Home), b"\x1B[H".to_vec());
    assert_eq!(plain(KeyCode::End), b"\x1B[F".to_vec());
    assert_eq!(plain(KeyCode::PageUp), b"\x1B[5~".to_vec());
    assert_eq!(plain(KeyCode::PageDown), b"\x1B[6~".to_vec());
    assert_eq!(plain(KeyCode::Insert), b"\x1B[2~".to_vec());
    assert_eq!(plain(KeyCode::Delete), b"\x1B[3~".to_vec());
    assert_eq!(plain(KeyCode::Esc), vec![0x1B]);
}

#[test]
fn function_keys_follow_the_table() {
    let expected: [&[u8]; 12] = [
        b"\x1BOP", b"\x1BOQ", b"\x1BOR", b"\x1BOS", b"\x1B[15~", b"\x1B[17~", b"\x1B[18~",
        b"\x1B[19~", b"\x1B[20~", b"\x1B[21~", b"\x1B[23~", b"\x1B[24~",
    ];
    for (i, bytes) in expected.iter().enumerate() {
        assert_eq!(plain(KeyCode::F(i as u8 + 1)), bytes.to_vec());
    }
    assert_eq!(plain(KeyCode::F(0)), Vec::<u8>::new());
    assert_eq!(plain(KeyCode::F(13)), Vec::<u8>::new());
    assert_eq!(plain(KeyCode::F(255)), Vec::<u8>::new());
}

#[test]
fn unknown_combinations_send_nothing() {
    let both = KeyModifiers { shift: false, control: true, alt: true, extra: false };
    let extra = KeyModifiers { shift: false, control: false, alt: false, extra: true };
    assert_eq!(with(KeyCode::Char('a'), both), Vec::<u8>::new());
    assert_eq!(with(KeyCode::Char('a'), extra), Vec::<u8>::new());
    assert_eq!(with(KeyCode::Char('A'), KeyModifiers::shift()), Vec::<u8>::new());
    assert_eq!(with(KeyCode::Up, KeyModifiers::control()), Vec::<u8>::new());
    assert_eq!(with(KeyCode::Left, KeyModifiers::shift()), Vec::<u8>::new());
    assert_eq!(with(KeyCode::Tab, KeyModifiers::control()), Vec::<u8>::new());
    assert_eq!(plain(KeyCode::BackTab), Vec::<u8>::new());
    assert_eq!(plain(KeyCode::Null), Vec::<u8>::new());
}

#[test]
fn keys_that_ignore_modifiers() {
    let both = KeyModifiers { shift: true, control: true, alt: false, extra: false };
    assert_eq!(with(KeyCode::Enter, both), vec![0x0D]);
    assert_eq!(with(KeyCode::Backspace, both), vec![0x7F]);
    assert_eq!(with(KeyCode::Home, both), b"\x1B[H".to_vec());
    assert_eq!(with(KeyCode::Delete, both), b"\x1B[3~".to_vec());
    assert_eq!(with(KeyCode::F(1), both), b"\x1BOP".to_vec());
    assert_eq!(with(KeyCode::Esc, both), vec![0x1B]);
}

#[test]
fn a_run_of_keys_is_encoded_in_order() {
    let first = KeyEvent::new(KeyCode::Char('l'), KeyModifiers::none());
    let second = KeyEvent::new(KeyCode::Char('s'), KeyModifiers::none());
    let third = KeyEvent::new(KeyCode::Enter, KeyModifiers::none());
    let run = convert_keys_to_bytes(&vec![first, second, third]);
    let mut one_by_one = convert_key_to_bytes(first);
    one_by_one.extend(convert_key_to_bytes(second));
    one_by_one.extend(convert_key_to_bytes(third));
    assert_eq!(run, one_by_one);
    assert_eq!(run, b"ls\r".to_vec());
    assert_eq!(convert_keys_to_bytes(&Vec::new()), Vec::<u8>::new());
}
