use xhtml_highlighter::character_stream::CharStream;

#[test]
fn new_stream_holds_the_text() {
    let stream = CharStream::new("ab c");
    assert_eq!(stream.get_contents(), "ab c");
    assert!(stream.more_available());
}

#[test]
fn empty_stream_has_nothing() {
    let mut stream = CharStream::new("");
    assert!(!stream.more_available());
    assert_eq!(stream.peek_next_char(), None);
    assert_eq!(stream.peek_ahead_char(0), None);
    assert_eq!(stream.get_next_char(), None);
    assert_eq!(stream.get_contents(), "");
}

#[test]
fn peek_does_not_consume() {
    let stream = CharStream::new("xyz");
    assert_eq!(stream.peek_next_char(), Some('x'));
    assert_eq!(stream.peek_next_char(), Some('x'));
    assert_eq!(stream.peek_ahead_char(0), Some('x'));
    assert_eq!(stream.peek_ahead_char(1), Some('y'));
    assert_eq!(stream.peek_ahead_char(2), Some('z'));
}

#[test]
fn peek_past_the_end_is_none() {
    let stream = CharStream::new("xyz");
    assert_eq!(stream.peek_ahead_char(3), None);
    assert_eq!(stream.peek_ahead_char(1000), None);
    assert_eq!(stream.peek_ahead_char(i32::MAX), None);
}

#[test]
fn peek_with_negative_offset_is_none() {
    let stream = CharStream::new("xyz");
    assert_eq!(stream.peek_ahead_char(-1), None);
    assert_eq!(stream.peek_ahead_char(i32::MIN), None);
}

#[test]
fn get_next_char_consumes_in_order() {
    let mut stream = CharStream::new("ab");
    assert_eq!(stream.get_next_char(), Some('a'));
    assert!(stream.more_available());
    assert_eq!(stream.peek_next_char(), Some('b'));
    assert_eq!(stream.get_next_char(), Some('b'));
    assert!(!stream.more_available());
    assert_eq!(stream.get_next_char(), None);
    assert_eq!(stream.get_next_char(), None);
}

#[test]
fn consuming_keeps_the_last_character() {
    let mut stream = CharStream::new("abcd");
    assert_eq!(stream.get_next_char(), Some('a'));
    assert_eq!(stream.peek_ahead_char(2), Some('d'));
    assert_eq!(stream.get_next_char(), Some('b'));
    assert_eq!(stream.get_next_char(), Some('c'));
    assert_eq!(stream.get_next_char(), Some('d'));
}

#[test]
fn contents_do_not_change_when_consumed() {
    let mut stream = CharStream::new("abc");
    stream.get_next_char();
    stream.get_next_char();
    assert_eq!(stream.get_contents(), "abc");
}

#[test]
fn peek_ahead_counts_from_the_cursor() {
    let mut stream = CharStream::new("abc");
    stream.get_next_char();
    assert_eq!(stream.peek_ahead_char(0), Some('b'));
    assert_eq!(stream.peek_ahead_char(1), Some('c'));
    assert_eq!(stream.peek_ahead_char(2), None);
}

#[test]
fn characters_outside_ascii_count_as_one() {
    let mut stream = CharStream::new("é→x");
    assert_eq!(stream.peek_ahead_char(1), Some('→'));
    assert_eq!(stream.get_next_char(), Some('é'));
    assert_eq!(stream.get_next_char(), Some('→'));
    assert_eq!(stream.get_next_char(), Some('x'));
    assert_eq!(stream.get_next_char(), None);
}
