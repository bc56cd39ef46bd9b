use bookokrat::inputs::event::{
    Event, KeyCode, KeyEvent, KeyEventKind, KeyModifiers, MouseButton, MouseEvent, MouseEventKind,
};
use bookokrat::inputs::terminal_input::{
    parse_modifier_num, parse_mouse_modifiers, KittyResponse, ReadError, TerminalInput,
    UnifiedEventSource,
};

fn press(code: KeyCode, modifiers: KeyModifiers) -> Event {
    Event::Key(KeyEvent { code, modifiers, kind: KeyEventKind::Press })
}

fn key(code: KeyCode) -> Event {
    press(code, KeyModifiers::empty())
}

/// All events that some bytes amount to, and one more read that times out.
fn events(bytes: &[u8]) -> Vec<Event> {
    let mut input = TerminalInput::new();
    let mut found = Vec::new();
    input.poll(bytes);
    loop {
        match input.read_event(&[]) {
            Ok(e) => found.push(e),
            Err(ReadError::WouldBlock) => break,
        }
    }
    while let Ok(e) = input.read_event(&[]) {
        found.push(e);
    }
    found
}

#[test]
fn test_kitty_response_parse() {
    let data = b"\x1b_Gi=42;OK\x1b\\";
    let response = KittyResponse::parse(data).unwrap();
    assert_eq!(response.image_id, Some(42));
    assert_eq!(response.message, "OK");
    assert!(!response.is_evicted());
}

#[test]
fn test_kitty_response_enoent() {
    let data = b"\x1b_Gi=123;ENOENT:Image not found\x1b\\";
    let response = KittyResponse::parse(data).unwrap();
    assert_eq!(response.image_id, Some(123));
    assert!(response.is_evicted());
}

#[test]
fn test_modifier_parsing() {
    assert_eq!(parse_modifier_num("1"), KeyModifiers::empty());
    assert_eq!(parse_modifier_num("2"), KeyModifiers::shift());
    assert_eq!(parse_modifier_num("3"), KeyModifiers::alt());
    assert_eq!(parse_modifier_num("5"), KeyModifiers::control());
    assert_eq!(
        parse_modifier_num("6"),
        KeyModifiers::shift().union(KeyModifiers::control())
    );
}

#[test]
fn test_sgr_mouse_modifier_parsing() {
    assert_eq!(parse_mouse_modifiers(0), KeyModifiers::empty());
    assert_eq!(parse_mouse_modifiers(4), KeyModifiers::shift());
    assert_eq!(parse_mouse_modifiers(8), KeyModifiers::alt());
    assert_eq!(parse_mouse_modifiers(16), KeyModifiers::control());
    assert_eq!(
        parse_mouse_modifiers(4 | 16),
        KeyModifiers::shift().union(KeyModifiers::control())
    );
}

#[test]
fn kitty_responses_tell_success_from_failure() {
    let ok = KittyResponse::parse(b"\x1b_Gi=1;OK\x1b\\").unwrap();
    assert!(ok.is_ok() && !ok.is_error());
    let err = KittyResponse::parse(b"\x1b_Gi=1;EINVAL:bad\x1b\\").unwrap();
    assert!(!err.is_ok() && err.is_error() && !err.is_evicted());
    let broken = KittyResponse::parse(b"\x1b_Gi=1;\xff\x1b\\");
    assert_eq!(broken.unwrap().message, "\u{fffd}");
    assert!(KittyResponse::parse(b"\x1b[A").is_none());
}

#[test]
fn letters_and_utf8_become_keys() {
    assert_eq!(events(b"a"), vec![key(KeyCode::Char('a'))]);
    assert_eq!(events("\u{e9}\u{4e2d}".as_bytes()), vec![key(KeyCode::Char('\u{e9}')), key(KeyCode::Char('\u{4e2d}'))]);
    assert_eq!(events(b"\r"), vec![key(KeyCode::Enter)]);
    assert_eq!(events(b"\t"), vec![key(KeyCode::Tab)]);
    assert_eq!(events(b"\x7f"), vec![key(KeyCode::Backspace)]);
    assert_eq!(events(b"\x04"), vec![press(KeyCode::Char('d'), KeyModifiers::control())]);
}

#[test]
fn arrows_and_function_keys_are_read() {
    assert_eq!(events(b"\x1b[A"), vec![key(KeyCode::Up)]);
    assert_eq!(events(b"\x1b[1;5C"), vec![press(KeyCode::Right, KeyModifiers::control())]);
    assert_eq!(events(b"\x1b[5~"), vec![key(KeyCode::PageUp)]);
    assert_eq!(events(b"\x1bOP"), vec![key(KeyCode::F(1))]);
    assert_eq!(events(b"\x1b[Z"), vec![press(KeyCode::BackTab, KeyModifiers::shift())]);
}

#[test]
fn escape_alone_waits_for_one_more_read() {
    let mut input = TerminalInput::new();
    assert!(!input.poll(b"\x1b"));
    assert!(input.wants_bytes());
    assert!(input.poll(&[]));
    assert_eq!(input.read_event(&[]).unwrap(), key(KeyCode::Esc));
    let mut input = TerminalInput::new();
    assert!(!input.poll(b"\x1b"));
    assert!(input.poll(b"[B"));
    assert_eq!(input.read_event(&[]).unwrap(), key(KeyCode::Down));
}

#[test]
fn mouse_reports_are_read() {
    let down = MouseEvent {
        kind: MouseEventKind::Down(MouseButton::Left),
        column: 9,
        row: 4,
        modifiers: KeyModifiers::empty(),
    };
    assert_eq!(events(b"\x1b[<0;10;5M"), vec![Event::Mouse(down)]);
    let up = MouseEvent { kind: MouseEventKind::Up(MouseButton::Left), ..down };
    assert_eq!(events(b"\x1b[<0;10;5m"), vec![Event::Mouse(up)]);
    let wheel = MouseEvent { kind: MouseEventKind::ScrollDown, ..down };
    assert_eq!(events(b"\x1b[<65;10;5M"), vec![Event::Mouse(wheel)]);
}

#[test]
fn responses_are_told_apart_from_keys() {
    let mut source = UnifiedEventSource::new();
    assert!(source.poll(b"x\x1b_Gi=7;ENOENT:gone\x1b\\y"));
    assert!(!source.wants_bytes());
    assert!(source.has_kitty_responses());
    assert_eq!(source.read(&[]).unwrap(), key(KeyCode::Char('x')));
    assert_eq!(source.read(&[]).unwrap(), key(KeyCode::Char('y')));
    assert!(matches!(source.read(&[]), Err(ReadError::WouldBlock)));
    let responses = source.take_kitty_responses();
    assert_eq!(responses.len(), 1);
    assert_eq!(responses[0].image_id, Some(7));
    assert!(!source.has_kitty_responses());
}

#[test]
fn parts_of_a_sequence_come_together() {
    for cut in 1..9 {
        let bytes = b"\x1b[<0;10;5M";
        let mut input = TerminalInput::new();
        let first = input.poll(&bytes[..cut]);
        assert!(!first, "cut at {cut}");
        assert!(input.poll(&bytes[cut..]), "cut at {cut}");
        assert!(matches!(input.read_event(&[]), Ok(Event::Mouse(_))));
    }
}

#[test]
fn input_may_be_cut_anywhere() {
    let bytes = b"a\x1b[1;5C\xc3\xa4\x1b[<0;10;5M\x1b_Gi=7;OK\x1b\\b\x1b[5~";
    let mut whole = TerminalInput::new();
    let mut expected = Vec::new();
    whole.poll(bytes);
    while let Ok(event) = whole.read_event(&[]) {
        expected.push(event);
    }
    assert_eq!(expected.len(), 6);
    for cut in 1..bytes.len() {
        let mut input = TerminalInput::new();
        let mut found = Vec::new();
        for part in [&bytes[..cut], &bytes[cut..]] {
            input.poll(part);
            while !input.wants_bytes() {
                found.push(input.read_event(&[]).unwrap());
            }
        }
        assert_eq!(found, expected, "cut at {cut}");
    }
}

#[test]
fn response_may_arrive_in_two_reads() {
    let bytes = b"\x1b_Gi=42;OK\x1b\\";
    for cut in 1..bytes.len() {
        let mut input = TerminalInput::new();
        assert!(!input.poll(&bytes[..cut]), "cut at {cut}");
        assert!(!input.poll(&bytes[cut..]), "cut at {cut}");
        let responses = input.take_kitty_responses();
        assert_eq!(responses.len(), 1, "cut at {cut}");
        assert_eq!(responses[0].image_id, Some(42));
        assert_eq!(responses[0].message, "OK");
    }
    let mut input = TerminalInput::new();
    assert!(!input.poll(b"\x1b_"));
    assert!(input.poll(&[]));
    assert_eq!(input.read_event(&[]).unwrap(), press(KeyCode::Char('_'), KeyModifiers::alt()));
}
