use conway_life::file::{FileParser, ReadBuffer};

fn chars(text: &str) -> Vec<char> {
    text.chars().collect()
}

#[test]
fn readbuffer_from_string() {
    let buffer = ReadBuffer::from_string("hello, world!");

    assert_eq!(String::from_utf8(buffer.as_vec().clone()).unwrap(), String::from("hello, world!"));
}

#[test]
fn readbuffer_from_string_read_line() {
    let mut parser = FileParser::init(ReadBuffer::from_string("this\nis\na\ntest"), None);
    let mut reader = parser.iter();

    assert_eq!(reader.read_line().unwrap(), chars("this"));
    assert_eq!(reader.read_line().unwrap(), chars("is"));
    assert_eq!(reader.read_line().unwrap(), chars("a"));
    assert_eq!(reader.read_line().unwrap(), chars("test"));
}

#[test]
fn readbuffer_from_string_read_line_until_empty() {
    let mut parser = FileParser::init(ReadBuffer::from_string("this\nis\na\ntest"), None);
    let mut reader = parser.iter();

    reader.read_line();
    reader.read_line();
    reader.read_line();
    reader.read_line();

    assert!(reader.read_line().is_none());
}

#[test]
fn readbuffer_from_bytes_and_slices() {
    let buffer = ReadBuffer::from_bytes(vec![49, 44, 50]);

    assert_eq!(buffer.as_slice(), &[49u8, 44, 50][..]);
    assert_eq!(buffer.as_vec(), &vec![49u8, 44, 50]);
}

#[test]
fn read_line_counts_skipped_lines() {
    let mut parser = FileParser::from_string("# one\n\n  \t\r\n  3,4  \r\n#two\nlast");
    let mut reader = parser.iter();

    assert_eq!(reader.line_number(), 0);
    assert_eq!(reader.read_line().unwrap(), chars("3,4"));
    assert_eq!(reader.line_number(), 4);
    assert_eq!(reader.read_line().unwrap(), chars("last"));
    assert_eq!(reader.line_number(), 6);
    assert!(reader.read_line().is_none());
    assert_eq!(reader.line_number(), 6);
}

#[test]
fn read_line_trims_unicode_white_space() {
    let mut parser = FileParser::from_string("\u{2003}\u{a0}7,8\u{3000}\u{85}\n");
    let mut reader = parser.iter();

    assert_eq!(reader.read_line().unwrap(), chars("7,8"));
}

#[test]
fn read_line_stops_at_bytes_that_are_not_text() {
    let mut parser = FileParser::init(ReadBuffer::from_bytes(vec![53, 44, 53, 10, 255, 254, 10, 49, 44, 49, 10]), None);
    let mut reader = parser.iter();

    assert_eq!(reader.next(), Some(Ok((5, 5))));
    assert_eq!(reader.next(), None);
    assert_eq!(reader.next(), None);
}
