use memwar::buffered::{BufferedWrite, WriteAction};

/// Runs a chunked write into `mem`, letting the system write at most `cap`
/// bytes per call; a write that reaches `fail_at` fails with code 487.
fn run(mem: &mut Vec<u8>, offset: usize, data: &[u8], chunk: usize, cap: usize, fail_at: usize) -> (Result<(), u32>, usize) {
    let mut w = BufferedWrite::new(offset, data.to_vec(), chunk);
    let mut calls = 0;
    loop {
        match w.next_action() {
            WriteAction::Done => return (Ok(()), calls),
            WriteAction::WriteChunk { offset, bytes } => {
                calls += 1;
                if offset + bytes.len() > fail_at {
                    return (Err(487), calls);
                }
                let n = bytes.len().min(cap);
                mem[offset..offset + n].copy_from_slice(&bytes[..n]);
                w.record(n);
            }
        }
    }
}

fn payload(len: usize, seed: u32) -> Vec<u8> {
    let mut x = seed;
    (0..len)
        .map(|_| {
            x = x.wrapping_mul(1_664_525).wrapping_add(1_013_904_223);
            (x >> 24) as u8
        })
        .collect()
}

#[test]
fn every_chunk_size_gives_the_single_write() {
    let data = payload(37, 5);
    let l = data.len();
    let mut expected = vec![0xAAu8; 64];
    expected[3..3 + l].copy_from_slice(&data);
    for chunk in [1, l / 2, l, l + 1, 2 * l] {
        let mut mem = vec![0xAAu8; 64];
        let (r, calls) = run(&mut mem, 3, &data, chunk, usize::MAX, usize::MAX);
        assert_eq!(r, Ok(()));
        assert_eq!(mem, expected);
        assert_eq!(calls, (l + chunk - 1) / chunk);
    }
}

#[test]
fn short_writes_continue_from_reported_count() {
    let data = payload(20, 9);
    let mut mem = vec![0u8; 32];
    let (r, calls) = run(&mut mem, 4, &data, 8, 3, usize::MAX);
    assert_eq!(r, Ok(()));
    assert_eq!(&mem[4..24], &data[..]);
    assert_eq!(calls, 7);
}

#[test]
fn failed_chunk_aborts() {
    let data = payload(16, 1);
    let mut mem = vec![0u8; 16];
    let (r, calls) = run(&mut mem, 0, &data, 4, usize::MAX, 10);
    assert_eq!(r, Err(487));
    assert_eq!(calls, 3);
    assert_eq!(&mem[..8], &data[..8]);
    assert_eq!(&mem[8..], &[0u8; 8]);
}

#[test]
fn empty_payload_is_done_at_once() {
    let w = BufferedWrite::new(0, Vec::new(), 16);
    assert_eq!(w.next_action(), WriteAction::Done);
}

#[test]
fn first_chunk_is_bounded_by_chunk_size() {
    let w = BufferedWrite::new(5, vec![1, 2, 3, 4, 5], 2);
    assert_eq!(w.next_action(), WriteAction::WriteChunk { offset: 5, bytes: vec![1, 2] });
}

#[test]
fn one_mebibyte_in_pages() {
    let data = payload(1 << 20, 42);
    let mut mem = vec![0u8; 1 << 20];
    let (r, calls) = run(&mut mem, 0, &data, 4096, usize::MAX, usize::MAX);
    assert_eq!(r, Ok(()));
    assert_eq!(calls, 256);
    for k in 0..16 {
        let piece = &mem[k * 65536..(k + 1) * 65536];
        assert_eq!(piece, &data[k * 65536..(k + 1) * 65536]);
    }
}

#[test]
fn byte_pattern_page() {
    let data: Vec<u8> = (0..4096).map(|i| (i % 256) as u8).collect();
    let mut mem = vec![0u8; 4096];
    let (r, calls) = run(&mut mem, 0, &data, 4096, usize::MAX, usize::MAX);
    assert_eq!(r, Ok(()));
    assert_eq!(calls, 1);
    assert_eq!(mem, data);
}
