use hprof_slurp::errors::HprofSlurpError;
use hprof_slurp::prefetch_reader::PrefetchReader;

fn plan(file_len: usize, start: usize, read_size: usize) -> Vec<usize> {
    let mut reader = PrefetchReader::new(file_len, start, read_size);
    let mut sizes = Vec::new();
    while !reader.is_done() {
        let size = reader.next_size();
        sizes.push(size);
        assert_eq!(reader.chunk_read(size), Ok(()));
    }
    assert_eq!(reader.next_size(), 0);
    sizes
}

#[test]
fn chunks_are_of_the_read_size_but_the_last() {
    assert_eq!(plan(31 + 10, 31, 4), vec![4, 4, 2]);
    assert_eq!(plan(31 + 8, 31, 4), vec![4, 4]);
    assert_eq!(plan(31 + 3, 31, 4), vec![3]);
    assert_eq!(plan(100, 0, 1), vec![1; 100]);
}

#[test]
fn an_empty_body_needs_no_chunk() {
    assert_eq!(plan(31, 31, 64), Vec::<usize>::new());
    let reader = PrefetchReader::new(31, 31, 64);
    assert!(reader.is_done());
}

#[test]
fn chunk_payloads_concatenate_to_the_body() {
    let file: Vec<u8> = (0..200u32).map(|i| (i * 7 % 251) as u8).collect();
    for read_size in [1usize, 2, 3, 5, 64, 169, 170, 1000] {
        let mut reader = PrefetchReader::new(file.len(), 31, read_size);
        let mut at = 31;
        let mut joined = Vec::new();
        while !reader.is_done() {
            let size = reader.next_size();
            assert!(size >= 1 && size <= read_size);
            joined.extend_from_slice(&file[at..at + size]);
            at += size;
            assert_eq!(reader.chunk_read(size), Ok(()));
        }
        assert_eq!(joined, file[31..].to_vec());
    }
}

#[test]
fn a_short_read_is_a_truncated_input() {
    let mut reader = PrefetchReader::new(100, 31, 16);
    assert_eq!(reader.next_size(), 16);
    assert_eq!(reader.chunk_read(7), Err(HprofSlurpError::TruncatedInput));
    assert_eq!(reader.next_size(), 16);
    assert!(!reader.is_done());
    assert_eq!(reader.chunk_read(16), Ok(()));
    assert_eq!(reader.next_size(), 16);
}

#[test]
fn a_short_last_chunk_is_no_short_read() {
    let mut reader = PrefetchReader::new(40, 31, 16);
    assert_eq!(reader.next_size(), 9);
    assert_eq!(reader.chunk_read(9), Ok(()));
    assert!(reader.is_done());
}
