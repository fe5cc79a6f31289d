use hello_http::request::{RequestBuffer, BUFFER_SIZE};

#[test]
fn the_buffer_holds_512_bytes() {
    assert_eq!(BUFFER_SIZE, 512);
    assert_eq!(RequestBuffer::new().as_slice().len(), 512);
}

#[test]
fn a_new_buffer_is_zeroed() {
    let buffer = RequestBuffer::new();
    assert!(buffer.as_slice().iter().all(|byte| *byte == 0));
}

#[test]
fn a_short_read_overwrites_the_start_only() {
    let mut buffer = RequestBuffer::new();
    let taken = buffer.fill(b"GET /");
    assert_eq!(taken, 5);
    assert_eq!(&buffer.as_slice()[..5], b"GET /");
    assert!(buffer.as_slice()[5..].iter().all(|byte| *byte == 0));
    assert_eq!(buffer.as_slice().len(), 512);
}

#[test]
fn an_empty_read_changes_nothing() {
    let mut buffer = RequestBuffer::new();
    assert_eq!(buffer.fill(b""), 0);
    assert_eq!(buffer.as_slice(), &[0u8; 512][..]);
}

#[test]
fn a_read_of_511_bytes_leaves_the_last_byte() {
    let mut buffer = RequestBuffer::new();
    assert_eq!(buffer.fill(&[7u8; 511]), 511);
    assert_eq!(&buffer.as_slice()[..511], &[7u8; 511][..]);
    assert_eq!(buffer.as_slice()[511], 0);
}

#[test]
fn a_read_of_512_bytes_fills_the_buffer() {
    let mut buffer = RequestBuffer::new();
    let incoming: Vec<u8> = (0..512).map(|i| (i % 251) as u8 + 1).collect();
    assert_eq!(buffer.fill(&incoming), 512);
    assert_eq!(buffer.as_slice(), &incoming[..]);
}

#[test]
fn a_read_takes_512_of_513_bytes() {
    let mut buffer = RequestBuffer::new();
    let mut incoming = vec![1u8; 512];
    incoming.push(2);
    assert_eq!(buffer.fill(&incoming), 512);
    assert_eq!(buffer.as_slice(), &incoming[..512]);
    assert!(!buffer.as_slice().contains(&2));
}

#[test]
fn a_read_takes_512_of_many_bytes() {
    let mut buffer = RequestBuffer::new();
    let incoming: Vec<u8> = (0..100_000).map(|i| (i % 256) as u8).collect();
    assert_eq!(buffer.fill(&incoming), 512);
    assert_eq!(buffer.as_slice(), &incoming[..512]);
}

#[test]
fn a_second_read_keeps_what_it_does_not_overwrite() {
    let mut buffer = RequestBuffer::new();
    buffer.fill(b"abcdef");
    assert_eq!(buffer.fill(b"XY"), 2);
    assert_eq!(&buffer.as_slice()[..6], b"XYcdef");
    assert!(buffer.as_slice()[6..].iter().all(|byte| *byte == 0));
}

#[test]
fn the_text_of_a_blank_buffer_is_512_nul_characters() {
    assert_eq!(RequestBuffer::new().text(), "\0".repeat(512));
}

#[test]
fn the_text_keeps_valid_utf8() {
    let mut buffer = RequestBuffer::new();
    let incoming = "GET /caf\u{e9} HTTP/1.1\r\n\r\n";
    buffer.fill(incoming.as_bytes());
    let mut expected = String::from(incoming);
    expected.push_str(&"\0".repeat(512 - incoming.len()));
    assert_eq!(buffer.text(), expected);
}

#[test]
fn the_text_replaces_what_is_not_utf8() {
    let mut buffer = RequestBuffer::new();
    buffer.fill(b"\xff\xfeok\x80");
    let mut expected = String::from("\u{fffd}\u{fffd}ok\u{fffd}");
    expected.push_str(&"\0".repeat(507));
    assert_eq!(buffer.text(), expected);
}

#[test]
fn the_text_replaces_a_character_that_the_cut_splits() {
    let mut buffer = RequestBuffer::new();
    let mut incoming = vec![b'a'; 511];
    incoming.extend_from_slice("\u{e9}".as_bytes());
    assert_eq!(incoming.len(), 513);
    assert_eq!(buffer.fill(&incoming), 512);
    let mut expected = "a".repeat(511);
    expected.push('\u{fffd}');
    assert_eq!(buffer.text(), expected);
}
