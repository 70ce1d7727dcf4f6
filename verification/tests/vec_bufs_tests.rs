use arrayvec::ArrayVec;
use conetty::vec_bufs::{VecBufs, MAX_VEC_BUF};

fn batch(frames: &[&[u8]]) -> VecBufs {
    let mut bufs: ArrayVec<Vec<u8>, 64> = ArrayVec::new();
    for f in frames {
        bufs.push(f.to_vec());
    }
    VecBufs::new(bufs)
}

fn offered(b: &VecBufs) -> Vec<Vec<u8>> {
    b.get_io_slice().iter().map(|s| s.to_vec()).collect()
}

fn rest(b: &VecBufs) -> Vec<u8> {
    if b.is_empty() {
        Vec::new()
    } else {
        b.get_io_slice().iter().flat_map(|s| s.iter().copied()).collect()
    }
}

#[test]
fn capacity_is_sixty_four() {
    assert_eq!(MAX_VEC_BUF, 64);
}

#[test]
fn new_batch_offers_every_frame_whole() {
    let b = batch(&[b"ab", b"cde", b"f"]);
    assert_eq!(b.len(), 3);
    assert!(!b.is_empty());
    assert_eq!(offered(&b), vec![b"ab".to_vec(), b"cde".to_vec(), b"f".to_vec()]);
}

#[test]
fn empty_batch_is_empty() {
    let mut b = batch(&[]);
    assert_eq!(b.len(), 0);
    assert!(b.is_empty());
    b.advance(5);
    assert!(b.is_empty());
}

#[test]
fn advance_inside_a_frame() {
    let mut b = batch(&[b"abcd", b"ef"]);
    b.advance(1);
    assert_eq!(offered(&b), vec![b"bcd".to_vec(), b"ef".to_vec()]);
    b.advance(2);
    assert_eq!(offered(&b), vec![b"d".to_vec(), b"ef".to_vec()]);
}

#[test]
fn advance_to_a_frame_boundary_passes_the_frame() {
    let mut b = batch(&[b"abcd", b"ef"]);
    b.advance(4);
    assert_eq!(offered(&b), vec![b"ef".to_vec()]);
    b.advance(2);
    assert!(b.is_empty());
}

#[test]
fn advance_across_frames() {
    let mut b = batch(&[b"ab", b"cd", b"efg", b"h"]);
    b.advance(5);
    assert_eq!(offered(&b), vec![b"fg".to_vec(), b"h".to_vec()]);
    b.advance(3);
    assert!(b.is_empty());
}

#[test]
fn advance_by_nothing_stays_unless_frames_are_empty() {
    let mut b = batch(&[b"ab", b"c"]);
    b.advance(0);
    assert_eq!(offered(&b), vec![b"ab".to_vec(), b"c".to_vec()]);

    let mut b = batch(&[b"", b"", b"xy"]);
    assert_eq!(offered(&b), vec![Vec::new(), Vec::new(), b"xy".to_vec()]);
    b.advance(0);
    assert_eq!(offered(&b), vec![b"xy".to_vec()]);

    let mut b = batch(&[b"", b""]);
    assert!(!b.is_empty());
    b.advance(0);
    assert!(b.is_empty());
}

#[test]
fn advance_passes_empty_frames_in_the_middle() {
    let mut b = batch(&[b"ab", b"", b"", b"cd"]);
    b.advance(2);
    assert_eq!(offered(&b), vec![b"cd".to_vec()]);
}

#[test]
fn advance_beyond_the_end_stops_at_the_end() {
    let mut b = batch(&[b"ab", b"cd"]);
    b.advance(1);
    b.advance(usize::MAX);
    assert!(b.is_empty());
    b.advance(1);
    assert!(b.is_empty());
}

#[test]
fn short_writes_put_the_frames_on_the_wire_whole_and_in_order() {
    let frames: Vec<Vec<u8>> = (0..64u8).map(|i| vec![i; (i as usize % 7) + 1]).collect();
    let whole: Vec<u8> = frames.iter().flatten().copied().collect();
    for step in [1usize, 2, 3, 5, 8, 13, 1000] {
        let refs: Vec<&[u8]> = frames.iter().map(|f| f.as_slice()).collect();
        let mut b = batch(&refs);
        assert_eq!(b.len(), 64);
        let mut wire = Vec::new();
        while !b.is_empty() {
            let left = rest(&b);
            let n = step.min(left.len());
            wire.extend_from_slice(&left[..n]);
            b.advance(n);
        }
        assert_eq!(wire, whole);
    }
}

#[test]
fn what_is_offered_is_what_is_left() {
    let mut b = batch(&[b"abc", b"de", b"fghi"]);
    let all = b"abcdefghi";
    for k in 0..all.len() {
        assert_eq!(rest(&b), all[k..].to_vec());
        b.advance(1);
    }
    assert!(b.is_empty());
}
