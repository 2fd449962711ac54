//! Chunked delivery of a completed buffer: framing, completion and error
//! signaling.
use epub_audio::audio::AudioStream;
use epub_audio::audio::DEFAULT_CHUNK_SIZE;

fn drain(stream: &mut AudioStream) -> Vec<Vec<u8>> {
    let mut chunks: Vec<Vec<u8>> = Vec::new();
    while let Some(item) = stream.next() {
        chunks.push(item.expect("no failure was recorded"));
    }
    chunks
}

fn pattern(len: usize) -> Vec<u8> {
    (0..len).map(|i| (i % 251) as u8).collect()
}

fn concat(chunks: &[Vec<u8>]) -> Vec<u8> {
    let mut all: Vec<u8> = Vec::new();
    for c in chunks {
        all.extend_from_slice(c);
    }
    all
}

#[test]
fn empty_buffer_without_header_emits_no_chunk() {
    let mut stream = AudioStream::new(Vec::new(), None, DEFAULT_CHUNK_SIZE);
    assert!(stream.next().is_none());
    assert!(stream.next().is_none());
}

#[test]
fn concatenation_equals_buffer_at_boundary_lengths() {
    for len in [0usize, 4095, 4096, 4097, 10000] {
        let data = pattern(len);
        let mut stream = AudioStream::new(data.clone(), None, 4096);
        let chunks = drain(&mut stream);
        assert_eq!(concat(&chunks), data, "length {}", len);
        assert!(chunks.iter().all(|c| !c.is_empty()), "length {}", len);
        assert!(chunks.iter().all(|c| c.len() <= 4096), "length {}", len);
    }
}

#[test]
fn ten_thousand_bytes_chunk_as_documented() {
    let data = pattern(10000);
    let mut stream = AudioStream::new(data.clone(), None, 4096);
    let chunks = drain(&mut stream);
    let lengths: Vec<usize> = chunks.iter().map(|c| c.len()).collect();
    assert_eq!(lengths, vec![4096, 4096, 1808]);
    assert_eq!(concat(&chunks), data);
}

#[test]
fn header_bytes_come_first_as_one_chunk() {
    let data = pattern(5000);
    let header = vec![b'R', b'I', b'F', b'F'];
    let mut stream = AudioStream::new(data.clone(), Some(header.clone()), 4096);
    let chunks = drain(&mut stream);
    assert_eq!(chunks[0], header);
    let mut expected = header.clone();
    expected.extend_from_slice(&data);
    assert_eq!(concat(&chunks), expected);
    assert_eq!(chunks.len(), 3);
}

#[test]
fn header_over_empty_buffer_is_the_only_chunk() {
    let header = vec![1u8, 2, 3];
    let mut stream = AudioStream::new(Vec::new(), Some(header.clone()), 4096);
    let chunks = drain(&mut stream);
    assert_eq!(chunks, vec![header]);
}

#[test]
fn empty_header_counts_as_no_header() {
    let data = pattern(10);
    let mut stream = AudioStream::new(data.clone(), Some(Vec::new()), 4096);
    let chunks = drain(&mut stream);
    assert_eq!(chunks.len(), 1);
    assert_eq!(chunks[0], data);
}

#[test]
fn tiny_chunk_size_still_delivers_everything() {
    let data = pattern(7);
    let mut stream = AudioStream::new(data.clone(), None, 3);
    let chunks = drain(&mut stream);
    let lengths: Vec<usize> = chunks.iter().map(|c| c.len()).collect();
    assert_eq!(lengths, vec![3, 3, 1]);
    assert_eq!(concat(&chunks), data);
}

#[test]
fn failure_is_surfaced_exactly_once_then_end() {
    let data = pattern(9000);
    let mut stream = AudioStream::new(data, None, 4096);
    let first = stream.next().expect("one chunk before the failure");
    assert!(first.is_ok());
    stream.fail(String::from("spooled read failed"));
    let item = stream.next().expect("the failure is one terminal item");
    let err = item.err().expect("the terminal item is the error");
    assert_eq!(err.message, "spooled read failed");
    assert!(stream.next().is_none());
    assert!(stream.next().is_none());
}

#[test]
fn total_len_reports_the_buffer_length() {
    let stream = AudioStream::new(pattern(123), None, 16);
    assert_eq!(stream.total_len(), 123);
}
