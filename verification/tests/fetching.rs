//! The forward fetcher and the backward resynchronizer, driven over
//! concrete memory images.

use debugbox::x86::Address;
use debugbox::x86::fetch::{FetchAfter, FetchBefore};

const SEG: u16 = 0x1000;

#[test]
fn fetch_after_three_known_instructions() {
    // three known 2-byte instructions at 0x0100, 0x0102, 0x0104
    let anchor = Address { segment: SEG, offset: 0x0100 };
    let mut f = FetchAfter::new(anchor, 3);

    let req = f.request().expect("first attempt");
    assert_eq!(req.segment, SEG);
    assert_eq!(req.offset, 0x0100);
    assert_eq!(req.length, 45 + 3 * 15);

    // the image: mov ax,bx / add bx,ax / xor ax,ax, then enough nops that
    // trimming the uncertain tail leaves exactly the three
    let mut image = vec![0x89, 0xD8, 0x01, 0xC3, 0x31, 0xC0];
    image.extend(std::iter::repeat(0x90).take(46));
    f.feed(image);
    assert!(f.request().is_none());

    let code = f.take();
    assert_eq!(code.len(), 3);
    assert_eq!(code[0].start_offset, 0x0100);
    assert_eq!(code[1].start_offset, 0x0102);
    assert_eq!(code[2].start_offset, 0x0104);
    assert_eq!(code[2].next_offset, 0x0106);
    assert_eq!(code[0].raw_bytes, vec![0x89, 0xD8]);
    assert_eq!(code[1].raw_bytes, vec![0x01, 0xC3]);
    assert_eq!(code[2].raw_bytes, vec![0x31, 0xC0]);
    assert_eq!(code[0].mnemonic, "mov");
    assert_eq!(code[1].mnemonic, "add");
    assert_eq!(code[2].mnemonic, "xor");
}

#[test]
fn fetch_after_windows_are_contiguous() {
    let anchor = Address { segment: SEG, offset: 0x0100 };
    let mut f = FetchAfter::new(anchor, 8);
    let req = f.request().expect("first attempt");
    // a mixed image: 2-byte and 1-byte instructions
    let mut image = Vec::new();
    for _ in 0..40 {
        image.extend_from_slice(&[0x89, 0xD8, 0x90]);
    }
    image.truncate(req.length as usize);
    f.feed(image);
    let code = f.take();
    assert!(code.len() >= 8);
    for w in code.windows(2) {
        assert_eq!(w[0].next_offset, w[1].start_offset);
    }
}

#[test]
fn fetch_after_at_the_ceiling_keeps_the_whole_batch() {
    let anchor = Address { segment: SEG, offset: 0xFFF0 };
    let mut f = FetchAfter::new(anchor, 5);
    let req = f.request().expect("first attempt");
    assert_eq!(req.offset, 0xFFF0);
    assert_eq!(req.length, 0xF);
    f.feed(vec![0x90; 0xF]);
    // the read reached the ceiling: nothing is trimmed and the fetch ends
    assert!(f.request().is_none());
    let code = f.take();
    assert_eq!(code.len(), 15);
    assert_eq!(code[14].next_offset, 0xFFFF);
}

#[test]
fn fetch_after_empty_memory_gives_up_after_budget() {
    let anchor = Address { segment: SEG, offset: 0x0100 };
    let mut f = FetchAfter::new(anchor, 3);
    let mut attempts: usize = 0;
    while let Some(req) = f.request() {
        assert!(req.length > 0);
        f.feed(Vec::new());
        attempts += 1;
        assert!(attempts <= 5);
    }
    assert_eq!(attempts, 5);
    assert_eq!(f.take().len(), 0);
}

#[test]
fn resync_lands_exactly_on_the_anchor() {
    // round trip: fetch_after gave an instruction ending at 0x0102; a
    // backward fetch anchored there recovers a run ending exactly there
    let mut f = FetchBefore::new(Address { segment: SEG, offset: 0x0102 }, 1);
    let req = f.request().expect("first attempt");
    assert_eq!(req.offset, 0x0102 - 60);
    assert_eq!(req.length, 60);
    f.feed(vec![0x90; 60]);
    assert!(f.request().is_none());
    let code = f.take();
    assert!(!code.is_empty());
    assert_eq!(code.last().unwrap().next_offset, 0x0102);
    // the unreliable leading margin was discarded
    assert_eq!(code.len(), 15);
    assert_eq!(code[0].start_offset, 0x0102 - 15);
    for w in code.windows(2) {
        assert_eq!(w[0].next_offset, w[1].start_offset);
    }
}

#[test]
fn resync_at_segment_origin_keeps_the_whole_run() {
    let mut f = FetchBefore::new(Address { segment: SEG, offset: 0x20 }, 100);
    let req = f.request().expect("first attempt");
    assert_eq!(req.offset, 0);
    assert_eq!(req.length, 0x20);
    f.feed(vec![0x90; 0x20]);
    // resynchronization at the origin is definitional: done at once
    assert!(f.request().is_none());
    let code = f.take();
    assert_eq!(code.len(), 0x20);
    assert_eq!(code[0].start_offset, 0);
    assert_eq!(code.last().unwrap().next_offset, 0x20);
}

#[test]
fn resync_without_alignment_retries_and_stops() {
    let mut f = FetchBefore::new(Address { segment: SEG, offset: 0x4000 }, 4);
    let mut attempts: usize = 0;
    let mut lengths = Vec::new();
    while let Some(req) = f.request() {
        lengths.push(req.length);
        // feed nothing: no alignment can ever be found
        f.feed(Vec::new());
        attempts += 1;
        assert!(attempts <= 5);
    }
    // no alignment found is not an error: the budget just runs out
    assert_eq!(attempts, 5);
    // every retry backs off further
    for w in lengths.windows(2) {
        assert!(w[0] < w[1]);
    }
    assert_eq!(f.take().len(), 0);
}

#[test]
fn resync_accepts_the_smallest_skip() {
    // 2-byte instructions from the start of the buffer up to the anchor:
    // skip 0 already reconverges, so the run keeps the earliest start
    let mut f = FetchBefore::new(Address { segment: SEG, offset: 0x0102 }, 1);
    let req = f.request().expect("first attempt");
    assert_eq!(req.length, 60);
    let image = vec![0x89, 0xD8].repeat(30);
    f.feed(image);
    let code = f.take();
    assert!(!code.is_empty());
    assert_eq!(code.last().unwrap().next_offset, 0x0102);
    // 60 bytes of run, minus at least 45 bytes of leading margin, in
    // 2-byte steps: 46 bytes dropped, 7 instructions kept
    assert_eq!(code.len(), 7);
    assert_eq!(code[0].start_offset, 0x0102 - 14);
}
