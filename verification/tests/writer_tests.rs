use rust_lessons::writer::{BufBuilder, ByteSink, MyWriter};

#[test]
fn buf_builder_collects_writes() {
    let mut b = BufBuilder::new();
    assert!(b.buf.is_empty());
    assert_eq!(b.write(b"hello"), Ok(5));
    assert_eq!(b.write(b" world"), Ok(6));
    assert_eq!(b.flush(), Ok(()));
    assert_eq!(b.buf, b"hello world".to_vec());
}

#[test]
fn buf_builder_write_all_hello_world() {
    let mut b = BufBuilder::new();
    b.write_all(b"hello world").unwrap();
    assert_eq!(b.buf[0], b'h');
    assert_eq!(b.buf[1], b'e');
    assert_eq!(b.debug_string(), "\"hello world\"");
}

#[test]
fn buf_builder_debug_of_invalid_utf8() {
    let mut b = BufBuilder::new();
    b.write(&[b'a', 0xff, b'b']).unwrap();
    assert_eq!(b.debug_string(), "\"a\u{fffd}b\"");
}

#[test]
fn buf_builder_debug_escapes_quotes_and_newlines() {
    let mut b = BufBuilder::new();
    b.write(b"say \"hi\"\n").unwrap();
    assert_eq!(b.debug_string(), "\"say \\\"hi\\\"\\n\"");
}

#[test]
fn my_writer_writes_utf8_bytes() {
    let mut w = MyWriter { writer: BufBuilder::new() };
    w.write("hello world!").unwrap();
    w.write("é").unwrap();
    let mut expected = b"hello world!".to_vec();
    expected.extend_from_slice("é".as_bytes());
    assert_eq!(w.writer.buf, expected);
}
