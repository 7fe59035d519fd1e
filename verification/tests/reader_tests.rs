use hmcdk::error::Error;
use hmcdk::reader::{ChunkedReader, ReadStatus, BUF_SIZE, SENTINEL};
use std::collections::HashMap;

/// A host that keeps its state in memory and pages values out as the
/// boundary prescribes.
struct MemoryHost {
    state: HashMap<Vec<u8>, Vec<u8>>,
    round_trips: usize,
}

impl MemoryHost {
    fn new() -> Self {
        MemoryHost { state: HashMap::new(), round_trips: 0 }
    }

    fn write_state(&mut self, key: &[u8], value: &[u8]) -> i32 {
        self.state.insert(key.to_vec(), value.to_vec());
        0
    }

    fn read_state(&mut self, key: &[u8], offset: usize, buf: &mut [u8]) -> i32 {
        self.round_trips += 1;
        match self.state.get(key) {
            None => SENTINEL,
            Some(value) => {
                if offset >= value.len() {
                    return 0;
                }
                let n = std::cmp::min(buf.len(), value.len() - offset);
                buf[..n].copy_from_slice(&value[offset..offset + n]);
                n as i32
            }
        }
    }
}

fn read_state(host: &mut MemoryHost, key: &[u8], page: usize) -> Result<Vec<u8>, Error> {
    let mut reader = ChunkedReader::new(page);
    let mut buf = vec![0u8; page];
    while reader.is_pending() {
        let ret = host.read_state(key, reader.offset(), &mut buf);
        reader.feed(ret, &buf);
    }
    reader.finish().unwrap()
}

fn value_of_length(n: usize) -> Vec<u8> {
    (0..n).map(|i| (i * 7 + 3) as u8).collect()
}

#[test]
fn chunked_reassembly() {
    let p = BUF_SIZE;
    for (len, trips) in [(p, 2), (2 * p, 3), (2 * p + 1, 3), (0, 1)] {
        let mut host = MemoryHost::new();
        let value = value_of_length(len);
        host.write_state(b"k", &value);
        assert_eq!(read_state(&mut host, b"k", p), Ok(value));
        assert_eq!(host.round_trips, trips);
    }
}

#[test]
fn chunked_reassembly_with_other_pages() {
    for page in [1usize, 2, 3, 7, 128, 1000] {
        for len in [0usize, 1, 2, 6, 7, 8, 127, 128, 129, 255, 256, 999, 1000, 1001] {
            let mut host = MemoryHost::new();
            let value = value_of_length(len);
            host.write_state(b"key", &value);
            assert_eq!(read_state(&mut host, b"key", page), Ok(value));
            assert_eq!(host.round_trips, len / page + 1);
        }
    }
}

#[test]
fn read_your_writes() {
    let mut host = MemoryHost::new();
    assert_eq!(read_state(&mut host, b"key", BUF_SIZE), Err(Error::NotFound));
    let b = [0u8; 255];
    host.write_state(b"key", &b);
    assert_eq!(read_state(&mut host, b"key", BUF_SIZE), Ok(b.to_vec()));
    host.write_state(b"key", b"second");
    assert_eq!(read_state(&mut host, b"key", BUF_SIZE), Ok(b"second".to_vec()));
    assert_eq!(read_state(&mut host, b"other", BUF_SIZE), Err(Error::NotFound));
}

#[test]
fn reader_steps() {
    let mut reader = ChunkedReader::new(4);
    assert_eq!(reader.capacity(), 4);
    assert_eq!(reader.offset(), 0);
    assert_eq!(reader.status(), ReadStatus::Pending);
    reader.feed(4, &[1, 2, 3, 4]);
    assert_eq!(reader.status(), ReadStatus::Pending);
    assert_eq!(reader.offset(), 4);
    reader.feed(2, &[5, 6, 99, 99]);
    assert_eq!(reader.status(), ReadStatus::Complete);
    reader.feed(4, &[7, 7, 7, 7]);
    assert_eq!(reader.status(), ReadStatus::Complete);
    assert_eq!(reader.finish(), Some(Ok(vec![1, 2, 3, 4, 5, 6])));
}

#[test]
fn reader_keeps_partial_reads_to_itself() {
    let mut reader = ChunkedReader::new(4);
    reader.feed(4, &[1, 2, 3, 4]);
    assert_eq!(reader.take_result(), None);
    assert_eq!(reader.offset(), 4);
    assert_eq!(reader.finish(), None);
}

#[test]
fn reader_failures() {
    let mut reader = ChunkedReader::new(4);
    reader.feed(SENTINEL, &[0; 4]);
    assert_eq!(reader.status(), ReadStatus::NotFound);
    assert_eq!(reader.finish(), Some(Err(Error::NotFound)));

    let mut reader = ChunkedReader::new(4);
    reader.feed(4, &[1, 2, 3, 4]);
    reader.feed(SENTINEL, &[0; 4]);
    assert_eq!(reader.finish(), Some(Err(Error::NotFound)));

    for bad in [5, -2, i32::MIN, i32::MAX] {
        let mut reader = ChunkedReader::new(4);
        reader.feed(bad, &[0; 4]);
        assert_eq!(reader.status(), ReadStatus::Failed);
        assert_eq!(reader.finish(), Some(Err(Error::HostCallFailure)));
    }

    let mut reader = ChunkedReader::new(4);
    reader.feed(3, &[0; 2]);
    assert_eq!(reader.finish(), Some(Err(Error::HostCallFailure)));
}

#[test]
fn reader_starts_afresh_after_its_result() {
    let mut reader = ChunkedReader::new(2);
    reader.feed(1, &[9, 0]);
    assert_eq!(reader.take_result(), Some(Ok(vec![9])));
    assert_eq!(reader.status(), ReadStatus::Pending);
    assert_eq!(reader.offset(), 0);
    reader.feed(0, &[0, 0]);
    assert_eq!(reader.take_result(), Some(Ok(vec![])));
}
