use std::collections::HashMap;

use memwar::allocation::Allocation;
use memwar::chain::{ChainAction, ChainWalk};

/// Runs a walk against words stored in a map; a missing address fails with code 998.
fn run(mut walk: ChainWalk, words: &HashMap<usize, usize>) -> (Result<usize, u32>, Vec<usize>) {
    let mut visited = Vec::new();
    let mut action = walk.first();
    loop {
        match action {
            ChainAction::ReadWord(addr) => {
                visited.push(addr);
                action = walk.advance(words.get(&addr).copied().ok_or(998));
            }
            ChainAction::Done(addr) => return (Ok(addr), visited),
            ChainAction::Failed(e) => return (Err(e), visited),
        }
    }
}

fn graph() -> HashMap<usize, usize> {
    // w0 at 0x100 holds the address of w1 (0x200) less 16; w1 points to w2 at 0x300.
    let mut m = HashMap::new();
    m.insert(0x100, 0x200 - 16);
    m.insert(0x200, 0x300);
    m.insert(0x300, 0xDEAD_BEEF);
    m
}

#[test]
fn chain_reaches_leaf_slot() {
    let m = graph();
    let (r, visited) = run(ChainWalk::new(0x100, vec![16, 0]), &m);
    assert_eq!(r, Ok(0x300));
    assert_eq!(m[&r.unwrap()], 0xDEAD_BEEF);
    assert_eq!(visited, vec![0x100, 0x200, 0x300]);
}

#[test]
fn chain_with_base_starts_past_the_base() {
    let m = graph();
    let alloc = Allocation::existing(1, 0x100);
    let (r, _) = run(ChainWalk::with_base(&alloc, 0, vec![16, 0]), &m);
    assert_eq!(r, Ok(0x300));
    let alloc = Allocation::existing(1, 0xf0);
    let (r, _) = run(ChainWalk::with_base(&alloc, 0x10, vec![16, 0]), &m);
    assert_eq!(r, Ok(0x300));
}

#[test]
fn chain_without_offsets_reads_once_and_returns_start() {
    let m = graph();
    let (r, visited) = run(ChainWalk::new(0x100, vec![]), &m);
    assert_eq!(r, Ok(0x100));
    assert_eq!(visited, vec![0x100]);
}

#[test]
fn chain_stops_at_first_failed_read() {
    let m = graph();
    let (r, visited) = run(ChainWalk::new(0x100, vec![8, 0, 0]), &m);
    assert_eq!(r, Err(998));
    assert_eq!(visited, vec![0x100, 0x1f8]);
    let (r, _) = run(ChainWalk::new(0x500, vec![16]), &m);
    assert_eq!(r, Err(998));
}

#[test]
fn chain_reads_the_final_slot_too() {
    let mut m = graph();
    m.remove(&0x300);
    let (r, visited) = run(ChainWalk::new(0x100, vec![16, 0]), &m);
    assert_eq!(r, Err(998));
    assert_eq!(visited, vec![0x100, 0x200, 0x300]);
}
