use ironlog::LineSplitter;

#[test]
fn overlong_line_is_dropped_and_stream_continues() {
    let mut s = LineSplitter::new(10);
    let mut input = b"short\n".to_vec();
    input.extend(std::iter::repeat(b'x').take(20));
    input.extend_from_slice(b"\nnext\n");
    let lines = s.push_bytes(&input);
    assert_eq!(lines, vec![b"short".to_vec(), b"next".to_vec()]);
}

#[test]
fn lines_split_across_chunks() {
    let mut s = LineSplitter::new(100);
    assert!(s.push_bytes(b"{\"a\":").is_empty());
    let lines = s.push_bytes(b"1}\n{\"b\"");
    assert_eq!(lines, vec![b"{\"a\":1}".to_vec()]);
    let lines = s.push_bytes(b":2}\n");
    assert_eq!(lines, vec![b"{\"b\":2}".to_vec()]);
    assert_eq!(s.finish(), None);
}

#[test]
fn overlong_line_across_chunks_is_dropped() {
    let mut s = LineSplitter::new(4);
    assert!(s.push_bytes(b"abc").is_empty());
    assert!(s.push_bytes(b"defg").is_empty());
    let lines = s.push_bytes(b"hi\nok\n");
    assert_eq!(lines, vec![b"ok".to_vec()]);
}

#[test]
fn line_of_exactly_the_cap_is_kept() {
    let mut s = LineSplitter::new(4);
    let lines = s.push_bytes(b"abcd\nabcde\n");
    assert_eq!(lines, vec![b"abcd".to_vec()]);
}

#[test]
fn empty_lines_are_kept() {
    let mut s = LineSplitter::new(4);
    let lines = s.push_bytes(b"\n\na\n");
    assert_eq!(lines, vec![Vec::new(), Vec::new(), b"a".to_vec()]);
}

#[test]
fn unterminated_last_line_is_returned_at_end() {
    let mut s = LineSplitter::new(8);
    assert_eq!(s.push_bytes(b"one\ntwo"), vec![b"one".to_vec()]);
    assert_eq!(s.finish(), Some(b"two".to_vec()));

    let mut s = LineSplitter::new(2);
    assert!(s.push_bytes(b"three").is_empty());
    assert_eq!(s.finish(), None);
}
