use std::io::{Cursor, Read};

use liblzma::bufread::{BufReader, BUFFER_SIZE};
use quickcheck::quickcheck;

/// Reads through the buffer as a `Read` impl over it does: fill from the
/// inner reader when every buffered byte is gone, then hand out bytes.
fn read_through<R: Read>(reader: &mut BufReader<R>, buf: &mut [u8]) -> std::io::Result<usize> {
    if reader.needs_fill() {
        let mut chunk = vec![0u8; BUFFER_SIZE];
        let n = reader.get_mut().read(&mut chunk)?;
        reader.fill_buf(&chunk[..n]);
    }
    Ok(reader.read(buf))
}

fn read_to_end_through<R: Read>(reader: &mut BufReader<R>, out: &mut Vec<u8>) -> std::io::Result<usize> {
    let mut total = 0;
    let mut chunk = [0u8; 100];
    loop {
        let n = read_through(reader, &mut chunk)?;
        if n == 0 {
            return Ok(total);
        }
        out.extend_from_slice(&chunk[..n]);
        total += n;
    }
}

#[test]
fn read_small_buffer() {
    let data = b"Hello, world!";
    let cursor = Cursor::new(data.as_ref());

    let mut buf_reader = BufReader::new(cursor);

    let mut buffer = [0; 5];

    let n = read_through(&mut buf_reader, &mut buffer).unwrap();
    assert_eq!(n, 5);
    assert_eq!(&buffer, b"Hello");

    let n = read_through(&mut buf_reader, &mut buffer).unwrap();
    assert_eq!(n, 5);
    assert_eq!(&buffer[..5], b", wor");

    let n = read_through(&mut buf_reader, &mut buffer).unwrap();
    assert_eq!(n, 3);
    assert_eq!(&buffer[..3], b"ld!");
}

#[test]
fn bufread() {
    quickcheck(test as fn(_) -> _);

    fn test(v: Vec<u8>) -> bool {
        let mut e = Vec::new();
        let mut reader = BufReader::new(&v[..]);
        read_to_end_through(&mut reader, &mut e).unwrap();
        v == e
    }
}

#[test]
fn reads_more_than_one_buffer_in_order() {
    let v: Vec<u8> = (0..3 * BUFFER_SIZE + 17).map(|i| (i % 251) as u8).collect();
    let mut e = Vec::new();
    let mut reader = BufReader::new(&v[..]);
    let n = read_to_end_through(&mut reader, &mut e).unwrap();
    assert_eq!(n, v.len());
    assert_eq!(e, v);
}

#[test]
fn new_buffer_is_empty() {
    let reader = BufReader::new(Cursor::new(vec![1u8, 2, 3]));
    assert!(reader.needs_fill());
    assert_eq!(reader.buffer(), &[] as &[u8]);
}

#[test]
fn fill_buf_only_replaces_an_exhausted_buffer() {
    let mut reader = BufReader::new(());
    reader.fill_buf(b"abc");
    assert_eq!(reader.buffer(), b"abc");
    reader.fill_buf(b"xyz");
    assert_eq!(reader.buffer(), b"abc");
    let mut out = [0u8; 3];
    assert_eq!(reader.read(&mut out), 3);
    assert_eq!(&out, b"abc");
    reader.fill_buf(b"xyz");
    assert_eq!(reader.buffer(), b"xyz");
}

#[test]
fn read_leaves_the_rest_of_out_alone() {
    let mut reader = BufReader::new(());
    reader.fill_buf(b"ab");
    let mut out = [9u8; 5];
    assert_eq!(reader.read(&mut out), 2);
    assert_eq!(out, [b'a', b'b', 9, 9, 9]);
    assert_eq!(reader.read(&mut out), 0);
    assert!(reader.needs_fill());
}

#[test]
fn consume_skips_and_clamps() {
    let mut reader = BufReader::new(());
    reader.fill_buf(b"hello");
    reader.consume(2);
    assert_eq!(reader.buffer(), b"llo");
    reader.consume(usize::MAX);
    assert_eq!(reader.buffer(), b"");
    assert!(reader.needs_fill());
}

#[test]
fn two_reads_equal_one_larger_read() {
    let mut a = BufReader::new(());
    a.fill_buf(b"abcdefg");
    let mut x = [0u8; 2];
    let mut y = [0u8; 3];
    assert_eq!(a.read(&mut x), 2);
    assert_eq!(a.read(&mut y), 3);

    let mut b = BufReader::new(());
    b.fill_buf(b"abcdefg");
    let mut z = [0u8; 5];
    assert_eq!(b.read(&mut z), 5);
    assert_eq!([&x[..], &y[..]].concat(), z.to_vec());
    assert_eq!(a.buffer(), b.buffer());
}

#[test]
fn inner_reader_is_kept() {
    let mut reader = BufReader::new(vec![1u8, 2]);
    assert_eq!(reader.get_ref(), &vec![1u8, 2]);
    reader.fill_buf(b"q");
    reader.get_mut().push(3);
    assert_eq!(reader.buffer(), b"q");
    assert_eq!(reader.into_inner(), vec![1u8, 2, 3]);
}
