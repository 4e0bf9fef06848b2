use wgpu_terminal::utf8_parser::{Parser, ParserError, State};

fn decode(bytes: &[u8]) -> Result<char, ParserError> {
    let mut parser = Parser::new();
    assert!(parser.parse_header_byte(bytes[0]));
    let mut result = Err(ParserError::Pending);
    for b in &bytes[1..] {
        result = parser.parse_body_byte(*b);
    }
    result
}

#[test]
fn decodes_multibyte_characters() {
    for c in ['é', 'ß', '€', '\u{800}', '\u{ffff}', '😀', '\u{10ffff}'] {
        let mut buf = [0u8; 4];
        let bytes = c.encode_utf8(&mut buf).as_bytes().to_vec();
        assert_eq!(decode(&bytes), Ok(c));
    }
}

#[test]
fn ascii_and_continuation_bytes_open_no_sequence() {
    let mut parser = Parser::new();
    assert!(!parser.parse_header_byte(b'a'));
    assert!(!parser.parse_header_byte(0x80));
    assert!(!parser.parse_header_byte(0xbf));
    assert!(!parser.parse_header_byte(0xf8));
    assert_eq!(parser.get_state(), State::ReadingHeader);
}

#[test]
fn pending_until_complete() {
    let mut parser = Parser::new();
    assert!(parser.parse_header_byte(0xe2));
    assert_eq!(parser.get_state(), State::ReadingBody);
    assert_eq!(parser.parse_body_byte(0x82), Err(ParserError::Pending));
    assert_eq!(parser.parse_body_byte(0xac), Ok('€'));
    assert_eq!(parser.get_state(), State::ReadingHeader);
}

#[test]
fn invalid_body_byte_closes_sequence() {
    let mut parser = Parser::new();
    assert!(parser.parse_header_byte(0xc3));
    assert_eq!(parser.parse_body_byte(b'a'), Err(ParserError::InvalidBodyByte));
    assert_eq!(parser.get_state(), State::ReadingHeader);
}

#[test]
fn surrogates_decode_to_replacement() {
    assert_eq!(decode(&[0xed, 0xa0, 0x80]), Ok('\u{fffd}'));
}
