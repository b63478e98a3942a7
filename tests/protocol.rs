use snake_match::game::Direction;
use snake_match::protocol::{parse_command, parse_direction, Command};

#[test]
fn connect_without_id() {
    assert_eq!(parse_command(b"/connect"), Command::Connect(None));
}

#[test]
fn connect_with_id_and_blanks_around() {
    assert_eq!(parse_command(b"/connect 42"), Command::Connect(Some(42)));
    assert_eq!(parse_command(b"  /connect 42 \r\n"), Command::Connect(Some(42)));
    assert_eq!(parse_command(b"/connect +7"), Command::Connect(Some(7)));
}

#[test]
fn connect_with_bad_id_reads_as_none() {
    assert_eq!(parse_command(b"/connect abc"), Command::Connect(None));
    assert_eq!(parse_command(b"/connect -1"), Command::Connect(None));
    assert_eq!(parse_command(b"/connect +"), Command::Connect(None));
    assert_eq!(parse_command(b"/connect  5"), Command::Connect(None));
    assert_eq!(parse_command(b"/connect 12x"), Command::Connect(None));
}

#[test]
fn connect_id_at_the_limit_of_usize() {
    let max = format!("/connect {}", usize::MAX);
    assert_eq!(parse_command(max.as_bytes()), Command::Connect(Some(usize::MAX)));
    let over = format!("/connect {}0", usize::MAX);
    assert_eq!(parse_command(over.as_bytes()), Command::Connect(None));
}

#[test]
fn stop_command() {
    assert_eq!(parse_command(b"/stop"), Command::Stop);
    assert_eq!(parse_command(b"/stop now"), Command::Stop);
}

#[test]
fn direction_commands() {
    assert_eq!(parse_command(b"/direction up"), Command::Direction(Some(Direction::UP)));
    assert_eq!(parse_command(b"/direction down"), Command::Direction(Some(Direction::DOWN)));
    assert_eq!(parse_command(b"/direction left"), Command::Direction(Some(Direction::LEFT)));
    assert_eq!(parse_command(b"/direction right"), Command::Direction(Some(Direction::RIGHT)));
    assert_eq!(parse_command(b"/direction sideways"), Command::Direction(None));
    assert_eq!(parse_command(b"/direction UP"), Command::Direction(None));
    assert_eq!(parse_command(b"/direction"), Command::Direction(None));
}

#[test]
fn anything_else_is_unrecognized() {
    assert_eq!(parse_command(b""), Command::Unrecognized);
    assert_eq!(parse_command(b"   "), Command::Unrecognized);
    assert_eq!(parse_command(b"hello"), Command::Unrecognized);
    assert_eq!(parse_command(b"/directions up"), Command::Unrecognized);
    assert_eq!(parse_command(b"/CONNECT"), Command::Unrecognized);
}

#[test]
fn bare_heading_words() {
    assert_eq!(parse_direction(b" left\n"), Some(Direction::LEFT));
    assert_eq!(parse_direction(b"up"), Some(Direction::UP));
    assert_eq!(parse_direction(b"up up"), None);
    assert_eq!(parse_direction(b""), None);
}

#[test]
fn unicode_white_space_is_trimmed_too() {
    assert_eq!(parse_command("/stop\u{a0}".as_bytes()), Command::Stop);
    assert_eq!(parse_command("\u{3000}/connect 9\u{2028}".as_bytes()), Command::Connect(Some(9)));
    assert_eq!(parse_command("\u{85}/direction left\u{2009}\u{202f}".as_bytes()), Command::Direction(Some(Direction::LEFT)));
    assert_eq!(parse_direction("up\u{a0}".as_bytes()), Some(Direction::UP));
    assert_eq!(parse_direction("\u{1680}\u{205f}down\u{200a}".as_bytes()), Some(Direction::DOWN));
    assert_eq!(parse_direction("\u{2000}\u{200b}up".as_bytes()), None);
    assert_eq!(parse_command("\u{feff}/stop".as_bytes()), Command::Unrecognized);
}

#[test]
fn trimming_agrees_with_str_trim() {
    let samples = [
        " \t/stop\n", "\u{a0}up\u{3000}", "\u{2028}\u{2029}", "left\u{85}", "\u{200b}up", "é up ", "",
    ];
    for t in samples {
        assert_eq!(parse_direction(t.as_bytes()), parse_direction(t.trim().as_bytes()));
        assert_eq!(parse_command(t.as_bytes()), parse_command(t.trim().as_bytes()));
    }
}
