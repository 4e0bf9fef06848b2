use wgpu_terminal::terminal_parser::{ParserMode, TerminalParser, TerminalParserHandler};
use wgpu_terminal::utf8_parser::ParserError;

#[derive(Debug, PartialEq)]
enum Event {
    Text(Vec<u8>),
    Utf8(char),
    Utf8Error(ParserError),
    Unhandled(u8),
    EscapeStart,
    EscapeByte(u8),
}

#[derive(Default)]
struct Recorder {
    events: Vec<Event>,
}

impl TerminalParserHandler for Recorder {
    fn on_unhandled_byte(&mut self, byte: u8) {
        self.events.push(Event::Unhandled(byte));
    }
    fn on_ascii_data(&mut self, buf: &[u8]) {
        self.events.push(Event::Text(buf.to_vec()));
    }
    fn on_utf8(&mut self, character: char) {
        self.events.push(Event::Utf8(character));
    }
    fn on_utf8_error(&mut self, error: &ParserError) {
        self.events.push(Event::Utf8Error(*error));
    }
    fn on_vt100_start(&mut self) {
        self.events.push(Event::EscapeStart);
    }
    fn on_vt100_byte(&mut self, byte: u8) -> bool {
        self.events.push(Event::EscapeByte(byte));
        byte.is_ascii_alphabetic()
    }
}

#[test]
fn plain_text_is_one_run() {
    let mut parser = TerminalParser::default();
    let mut recorder = Recorder::default();
    parser.parse_bytes(b"hello world", &mut recorder);
    assert_eq!(recorder.events, vec![Event::Text(b"hello world".to_vec())]);
    assert_eq!(parser.get_mode(), ParserMode::Byte);
}

#[test]
fn text_escapes_and_utf8_in_order() {
    let mut parser = TerminalParser::default();
    let mut recorder = Recorder::default();
    parser.parse_bytes(b"ab\x1b[31mcd\xc3\xa9\xff!", &mut recorder);
    assert_eq!(recorder.events, vec![
        Event::Text(b"ab".to_vec()),
        Event::EscapeStart,
        Event::EscapeByte(b'['),
        Event::EscapeByte(b'3'),
        Event::EscapeByte(b'1'),
        Event::EscapeByte(b'm'),
        Event::Text(b"cd".to_vec()),
        Event::Utf8('é'),
        Event::Unhandled(0xff),
        Event::Text(b"!".to_vec()),
    ]);
}

#[test]
fn sequences_continue_across_buffers() {
    let mut parser = TerminalParser::default();
    let mut recorder = Recorder::default();
    parser.parse_bytes(b"x\xe2\x82", &mut recorder);
    assert_eq!(parser.get_mode(), ParserMode::Utf8);
    parser.parse_bytes(b"\xac\x1b[", &mut recorder);
    assert_eq!(parser.get_mode(), ParserMode::Vt100);
    parser.parse_bytes(b"2J", &mut recorder);
    assert_eq!(parser.get_mode(), ParserMode::Byte);
    assert_eq!(recorder.events, vec![
        Event::Text(b"x".to_vec()),
        Event::Utf8('€'),
        Event::EscapeStart,
        Event::EscapeByte(b'['),
        Event::EscapeByte(b'2'),
        Event::EscapeByte(b'J'),
    ]);
}

#[test]
fn broken_utf8_is_reported() {
    let mut parser = TerminalParser::default();
    let mut recorder = Recorder::default();
    parser.parse_bytes(b"\xc3a", &mut recorder);
    assert_eq!(recorder.events, vec![Event::Utf8Error(ParserError::InvalidBodyByte)]);
    assert_eq!(parser.get_mode(), ParserMode::Byte);
}

#[test]
fn text_around_a_decoded_character_is_handed_over_in_order() {
    let mut parser = TerminalParser::default();
    let mut recorder = Recorder::default();
    parser.parse_bytes(b"a\xc3\xa9b", &mut recorder);
    assert_eq!(recorder.events, vec![
        Event::Text(b"a".to_vec()),
        Event::Utf8('\u{e9}'),
        Event::Text(b"b".to_vec()),
    ]);
    assert_eq!(parser.get_mode(), ParserMode::Byte);
}

fn text_and_other_calls(events: &[Event]) -> (Vec<u8>, Vec<&Event>) {
    let mut text = Vec::new();
    let mut others = Vec::new();
    for event in events {
        match event {
            Event::Text(t) => text.extend_from_slice(t),
            other => others.push(other),
        }
    }
    (text, others)
}

#[test]
fn a_buffer_split_anywhere_gives_the_same_text_and_calls() {
    let input: &[u8] = b"ab\x1b[2Jcd\xc3\xa9\xffe\xe2\x82\xacf";
    let mut whole_parser = TerminalParser::default();
    let mut whole = Recorder::default();
    whole_parser.parse_bytes(input, &mut whole);
    let expected = text_and_other_calls(&whole.events);
    for split in 0..=input.len() {
        let mut parser = TerminalParser::default();
        let mut recorder = Recorder::default();
        parser.parse_bytes(&input[..split], &mut recorder);
        parser.parse_bytes(&input[split..], &mut recorder);
        assert_eq!(text_and_other_calls(&recorder.events), expected, "split at {}", split);
        assert_eq!(parser.get_mode(), whole_parser.get_mode());
    }
}
