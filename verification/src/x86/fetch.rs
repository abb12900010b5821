//! The forward fetcher: growing a decoded-instruction window forward from a
//! start address until enough instructions are collected or the address
//! space is exhausted.
//!
//! Remote memory sits behind a request/response channel, so the fetcher is a
//! state machine: `request` names the next byte range to read, the caller
//! performs the read and hands the bytes to `feed`, and `take` surrenders the
//! collected window.  A fetch makes at most `FETCH_ATTEMPT_NUM` attempts.

use vstd::prelude::*;

use crate::x86::Address;
use crate::x86::dec::{
    DecodedInstruction, InstrV, views, window_wf, instr_wf, decode_run, trim_tail,
    trim_tail_rec, drop_head, drop_head_rec, decode_stream, lemma_decode_run_wf,
    lemma_trim_tail_rec_prefix, lemma_drop_head_rec_suffix, lemma_window_wf_take,
    lemma_window_wf_skip, lemma_window_concat, MAX_INSTR_LEN, SKIP_INSTR_LEN, FETCH_ATTEMPT_NUM,
    OFFSET_CEILING,
};

verus! {

/// One read the fetcher asks the memory port to perform: `length` bytes
/// starting at `segment:offset`.
#[derive(Copy, Clone, PartialEq, Eq, Structural, Debug)]
pub struct ReadRequest {
    pub segment: u16,
    pub offset: u32,
    pub length: u32,
}

/// Number of bytes one attempt asks for beyond what is already decoded:
/// grows with the attempt index and with the number of instructions still
/// missing.  The missing count is capped at the size of the offset space:
/// no read ever needs room for more instructions than the space can hold.
pub open spec fn span_bytes(attempt: nat, needed: nat) -> int {
    let capped: nat = if needed > 0x10000 { 0x10000 as nat } else { needed };
    (attempt + 1) * (SKIP_INSTR_LEN as int) + capped * (MAX_INSTR_LEN as int)
}

/// What one forward attempt keeps of its freshly decoded batch: everything,
/// if the read reached the offset ceiling; otherwise the batch without its
/// uncertain tail.
pub open spec fn forward_kept(data: Seq<u8>, start: u32, end: int) -> Seq<InstrV> {
    let run = decode_run(data, start, 0);
    if end < OFFSET_CEILING {
        trim_tail(run)
    } else {
        run
    }
}

/// The forward fetcher's state across attempts.
pub struct FetchAfter {
    segment: u16,
    anchor: u32,
    limit: usize,
    attempt: usize,
    done: bool,
    code: Vec<DecodedInstruction>,
}

impl FetchAfter {
    /// The segment every read targets.
    pub closed spec fn seg(&self) -> u16 {
        self.segment
    }

    /// The offset the fetch was anchored at.
    pub closed spec fn anchor_off(&self) -> u32 {
        self.anchor
    }

    /// How many instructions the fetch is after.
    pub closed spec fn limit_of(&self) -> nat {
        self.limit as nat
    }

    /// Completed attempts.
    pub closed spec fn attempts(&self) -> nat {
        self.attempt as nat
    }

    /// The window collected so far.
    pub closed spec fn window(&self) -> Seq<InstrV> {
        views(self.code@)
    }

    /// Whether the fetch is over.
    pub closed spec fn is_done(&self) -> bool {
        self.done
    }

    /// The fetcher's invariant: the collected window is well formed, starts
    /// at the anchor, stays below the offset ceiling, and the attempt count
    /// never passes the budget.
    pub closed spec fn wf(&self) -> bool {
        &&& window_wf(self.window())
        &&& self.attempt <= FETCH_ATTEMPT_NUM
        &&& (!self.done ==> self.attempt < FETCH_ATTEMPT_NUM)
        &&& (self.window().len() > 0 ==> self.window()[0].start == self.anchor)
        &&& (self.window().len() > 0 ==> self.window().last().next <= OFFSET_CEILING)
    }

    /// The next undecoded offset: the anchor first, then wherever the last
    /// collected instruction ends.
    pub open spec fn next_start(&self) -> u32 {
        if self.window().len() == 0 {
            self.anchor_off()
        } else {
            self.window().last().next
        }
    }

    /// Instructions still missing.
    pub open spec fn needed(&self) -> nat {
        if self.limit_of() > self.window().len() {
            (self.limit_of() - self.window().len()) as nat
        } else {
            0
        }
    }

    /// Exclusive end of the next read: the requested span past the next
    /// start, capped at the offset ceiling.
    pub open spec fn read_end(&self) -> int {
        let e = self.next_start() + span_bytes(self.attempts(), self.needed());
        if e < OFFSET_CEILING {
            e
        } else {
            OFFSET_CEILING as int
        }
    }

    /// The read the next attempt asks for.
    pub open spec fn request_spec(&self) -> ReadRequest {
        ReadRequest {
            segment: self.seg(),
            offset: self.next_start(),
            length: if self.next_start() <= self.read_end() {
                (self.read_end() - self.next_start()) as u32
            } else {
                0
            },
        }
    }

    /// Start a forward fetch: collect up to `limit` instructions from
    /// `addr` on.
    pub fn new(addr: Address, limit: usize) -> (r: FetchAfter)
        ensures
            r.wf(),
            !r.is_done(),
            r.seg() == addr.segment,
            r.anchor_off() == addr.offset,
            r.limit_of() == limit,
            r.attempts() == 0,
            r.window() == Seq::<InstrV>::empty(),
    {
        let r = FetchAfter {
            segment: addr.segment,
            anchor: addr.offset,
            limit,
            attempt: 0,
            done: false,
            code: Vec::new(),
        };
        proof {
            assert(r.window() =~= Seq::<InstrV>::empty());
        }
        r
    }

    /// The read the memory port should perform next, or `None` once the
    /// fetch is over.
    pub fn request(&self) -> (r: Option<ReadRequest>)
        requires
            self.wf(),
        ensures
            r is Some <==> !self.is_done(),
            r is Some ==> r->Some_0 == self.request_spec(),
    {
        if self.done {
            None
        } else {
            Some(self.compute_request())
        }
    }

    /// Compute the pending request.
    fn compute_request(&self) -> (r: ReadRequest)
        requires
            self.wf(),
            !self.is_done(),
        ensures
            r == self.request_spec(),
    {
        let start = if self.code.len() == 0 {
            self.anchor
        } else {
            self.code[self.code.len() - 1].next_offset
        };
        proof {
            assert(start == self.next_start());
        }
        let needed_raw = if self.limit > self.code.len() {
            self.limit - self.code.len()
        } else {
            0
        };
        let needed = if needed_raw > 0x10000 {
            0x10000
        } else {
            needed_raw
        };
        let span = (self.attempt + 1) * SKIP_INSTR_LEN + needed * MAX_INSTR_LEN;
        let end_raw = start.saturating_add(span as u32);
        let end = if end_raw < OFFSET_CEILING {
            end_raw
        } else {
            OFFSET_CEILING
        };
        proof {
            assert(span == span_bytes(self.attempts(), self.needed()));
        }
        ReadRequest {
            segment: self.segment,
            offset: start,
            length: end.saturating_sub(start),
        }
    }

    /// Consume the answer to the pending request: decode the fetched bytes,
    /// keep the trustworthy part of the batch, and decide whether to stop.
    /// The port may answer with fewer bytes than were asked for, never with
    /// more.
    #[verifier::rlimit(100)]
    pub fn feed(&mut self, data: Vec<u8>)
        requires
            old(self).wf(),
            !old(self).is_done(),
            data@.len() <= old(self).request_spec().length,
        ensures
            final(self).wf(),
            final(self).seg() == old(self).seg(),
            final(self).anchor_off() == old(self).anchor_off(),
            final(self).limit_of() == old(self).limit_of(),
            final(self).attempts() == old(self).attempts() + 1,
            final(self).window() == old(self).window()
                + forward_kept(data@, old(self).next_start(), old(self).read_end()),
            final(self).is_done() <==> (old(self).read_end() >= OFFSET_CEILING
                || final(self).window().len() >= old(self).limit_of()
                || old(self).attempts() + 1 == FETCH_ATTEMPT_NUM),
    {
        let req = self.compute_request();
        let ghost old_win = self.window();
        proof {
            if req.length > 0 {
                assert(req.offset <= self.read_end());
                assert(req.offset + req.length == self.read_end());
            }
            assert(req.offset + data@.len() <= u32::MAX);
        }
        let mut run = decode_stream(data.as_slice(), req.offset, 0);
        let ghost run0 = views(run@);
        proof {
            lemma_decode_run_wf(data@, req.offset, 0);
        }
        let end_reached = req.offset.saturating_add(req.length) >= OFFSET_CEILING;
        proof {
            assert(end_reached == (self.read_end() >= OFFSET_CEILING));
        }
        if !end_reached {
            let mut popped: usize = 0;
            loop
                invariant_except_break
                    popped <= SKIP_INSTR_LEN,
                    trim_tail_rec(views(run@), popped as int) == trim_tail(run0),
                invariant
                    window_wf(views(run@)),
                ensures
                    views(run@) == trim_tail(run0),
                decreases run@.len(),
            {
                let ghost prev = views(run@);
                let ghost popped0 = popped as int;
                match run.pop() {
                    None => {
                        proof {
                            assert(trim_tail_rec(prev, popped0) == prev);
                        }
                        break;
                    },
                    Some(last) => {
                        proof {
                            assert(views(run@) =~= prev.drop_last());
                            assert(prev.last() == last@);
                            assert(instr_wf(prev.last()));
                            lemma_window_wf_take(prev, prev.len() - 1);
                            assert(prev.take(prev.len() - 1) =~= prev.drop_last());
                        }
                        popped = popped + last.length;
                        if popped > SKIP_INSTR_LEN {
                            proof {
                                assert(trim_tail_rec(prev, popped0) == prev.drop_last());
                            }
                            break;
                        }
                    },
                }
            }
        }
        let ghost kept = views(run@);
        proof {
            // the kept batch is a prefix of the decoded run, hence well
            // formed and starting where the run starts
            lemma_trim_tail_rec_prefix(run0, 0);
            assert(kept == run0.take(kept.len() as int)) by {
                if end_reached {
                    assert(run0.take(run0.len() as int) =~= run0);
                }
            }
            lemma_window_wf_take(run0, kept.len() as int);
            assert(window_wf(kept));
            if kept.len() > 0 {
                assert(kept[0] == run0[0]);
                assert(run0[0].start == req.offset);
            }
            assert forall|i: int| 0 <= i < kept.len() implies (#[trigger] kept[i].next)
                <= OFFSET_CEILING by {
                assert(kept[i] == run0[i]);
                assert(run0[i].next <= req.offset + data@.len());
                if req.length > 0 {
                    assert(req.offset + req.length <= OFFSET_CEILING);
                }
            }
            lemma_window_concat(old_win, kept);
            assert(kept == forward_kept(data@, req.offset, self.read_end()));
        }
        self.code.append(&mut run);
        proof {
            assert(self.window() =~= old_win + kept);
            if old_win.len() > 0 {
                assert(self.window()[0] == old_win[0]);
            }
            if self.window().len() > 0 && old_win.len() == 0 {
                assert(self.window()[0] == kept[0]);
            }
            if kept.len() > 0 {
                assert(self.window().last() == kept.last());
            } else if old_win.len() > 0 {
                assert(self.window().last() == old_win.last());
            }
        }
        self.attempt = self.attempt + 1;
        self.done = end_reached || self.code.len() >= self.limit || self.attempt == FETCH_ATTEMPT_NUM;
    }

    /// Surrender the collected window: a well-formed window whose first
    /// instruction, if any, starts exactly at the anchor.
    pub fn take(self) -> (r: Vec<DecodedInstruction>)
        requires
            self.wf(),
        ensures
            views(r@) == self.window(),
            window_wf(views(r@)),
            views(r@).len() > 0 ==> views(r@)[0].start == self.anchor_off(),
    {
        self.code
    }
}

/// Accepted alignment at byte offset `k` of a backward fetch: decoding from
/// `start + k` yields a nonempty run whose last instruction ends exactly at
/// `first`, the known-good boundary.
pub open spec fn align_ok(data: Seq<u8>, start: u32, first: u32, k: nat) -> bool {
    let run = decode_run(data, start, k);
    run.len() > 0 && run.last().next == first
}

/// The alignment search: the smallest byte offset into the fetched buffer
/// whose forward decode reconverges exactly onto the known boundary, if any.
/// Search order 0, 1, 2, ... breaks ties toward the fetched window's start.
pub open spec fn find_align_from(data: Seq<u8>, start: u32, first: u32, k: nat) -> Option<nat>
    decreases data.len() - k,
{
    if k >= data.len() {
        None
    } else if align_ok(data, start, first, k) {
        Some(k)
    } else {
        find_align_from(data, start, first, (k + 1) as nat)
    }
}

/// The alignment search over the whole fetched buffer.
pub open spec fn find_align(data: Seq<u8>, start: u32, first: u32) -> Option<nat> {
    find_align_from(data, start, first, 0)
}

/// What one backward attempt prepends after accepting alignment `k`: the
/// accepted run without its unreliable leading margin, or whole if the read
/// started at offset zero, where resynchronization is definitional.
pub open spec fn backward_kept(data: Seq<u8>, start: u32, k: nat) -> Seq<InstrV> {
    let run = decode_run(data, start, k);
    if start > 0 {
        drop_head(run)
    } else {
        run
    }
}

/// The backward resynchronizer's state across attempts: it recovers a
/// decoded window ending exactly at a known anchor address by brute-force
/// alignment search, backing off further on every attempt.
pub struct FetchBefore {
    segment: u16,
    anchor: u32,
    limit: usize,
    attempt: usize,
    done: bool,
    code: Vec<DecodedInstruction>,
}

impl FetchBefore {
    /// The segment every read targets.
    pub closed spec fn seg(&self) -> u16 {
        self.segment
    }

    /// The boundary the fetch was anchored at: every collected window ends
    /// exactly here.
    pub closed spec fn anchor_off(&self) -> u32 {
        self.anchor
    }

    /// How many instructions the fetch is after.
    pub closed spec fn limit_of(&self) -> nat {
        self.limit as nat
    }

    /// Completed attempts.
    pub closed spec fn attempts(&self) -> nat {
        self.attempt as nat
    }

    /// The window collected so far.
    pub closed spec fn window(&self) -> Seq<InstrV> {
        views(self.code@)
    }

    /// Whether the fetch is over.
    pub closed spec fn is_done(&self) -> bool {
        self.done
    }

    /// The resynchronizer's invariant: the collected window is well formed,
    /// ends exactly at the anchor, and the attempt count never passes the
    /// budget.
    pub closed spec fn wf(&self) -> bool {
        &&& window_wf(self.window())
        &&& self.attempt <= FETCH_ATTEMPT_NUM
        &&& (!self.done ==> self.attempt < FETCH_ATTEMPT_NUM)
        &&& (self.window().len() > 0 ==> self.window().last().next == self.anchor)
    }

    /// The earliest known-good boundary: the anchor first, then wherever the
    /// earliest collected instruction starts.
    pub open spec fn next_first(&self) -> u32 {
        if self.window().len() == 0 {
            self.anchor_off()
        } else {
            self.window()[0].start
        }
    }

    /// Instructions still missing.
    pub open spec fn needed(&self) -> nat {
        if self.limit_of() > self.window().len() {
            (self.limit_of() - self.window().len()) as nat
        } else {
            0
        }
    }

    /// Start of the next read: the requested span short of the boundary,
    /// saturating at offset zero.
    pub open spec fn read_start(&self) -> u32 {
        let sp = span_bytes(self.attempts(), self.needed());
        if self.next_first() >= sp {
            (self.next_first() - sp) as u32
        } else {
            0
        }
    }

    /// The read the next attempt asks for: the bytes from the candidate
    /// start up to, excluding, the known boundary.
    pub open spec fn request_spec(&self) -> ReadRequest {
        ReadRequest {
            segment: self.seg(),
            offset: self.read_start(),
            length: (self.next_first() - self.read_start()) as u32,
        }
    }

    /// Start a backward fetch: collect up to `limit` instructions ending
    /// exactly at `addr`.
    pub fn new(addr: Address, limit: usize) -> (r: FetchBefore)
        ensures
            r.wf(),
            !r.is_done(),
            r.seg() == addr.segment,
            r.anchor_off() == addr.offset,
            r.limit_of() == limit,
            r.attempts() == 0,
            r.window() == Seq::<InstrV>::empty(),
    {
        let r = FetchBefore {
            segment: addr.segment,
            anchor: addr.offset,
            limit,
            attempt: 0,
            done: false,
            code: Vec::new(),
        };
        proof {
            assert(r.window() =~= Seq::<InstrV>::empty());
        }
        r
    }

    /// The read the memory port should perform next, or `None` once the
    /// fetch is over.
    pub fn request(&self) -> (r: Option<ReadRequest>)
        requires
            self.wf(),
        ensures
            r is Some <==> !self.is_done(),
            r is Some ==> r->Some_0 == self.request_spec(),
    {
        if self.done {
            None
        } else {
            Some(self.compute_request())
        }
    }

    /// Compute the pending request.
    fn compute_request(&self) -> (r: ReadRequest)
        requires
            self.wf(),
            !self.is_done(),
        ensures
            r == self.request_spec(),
    {
        let first = if self.code.len() == 0 {
            self.anchor
        } else {
            self.code[0].start_offset
        };
        proof {
            assert(first == self.next_first());
        }
        let needed_raw = if self.limit > self.code.len() {
            self.limit - self.code.len()
        } else {
            0
        };
        let needed = if needed_raw > 0x10000 {
            0x10000
        } else {
            needed_raw
        };
        let span = (self.attempt + 1) * SKIP_INSTR_LEN + needed * MAX_INSTR_LEN;
        proof {
            assert(span == span_bytes(self.attempts(), self.needed()));
        }
        let start = first.saturating_sub(span as u32);
        ReadRequest { segment: self.segment, offset: start, length: first - start }
    }

    /// Consume the answer to the pending request: search every byte offset
    /// of the fetched buffer, in order, for a forward decode that lands
    /// exactly back on the known boundary; on success discard the run's
    /// unreliable leading margin and prepend the rest.  Finding no alignment
    /// is not an error, only a reason to back off further.  The port may
    /// answer with fewer bytes than were asked for, never with more.
    #[verifier::rlimit(100)]
    pub fn feed(&mut self, data: Vec<u8>)
        requires
            old(self).wf(),
            !old(self).is_done(),
            data@.len() <= old(self).request_spec().length,
        ensures
            final(self).wf(),
            final(self).seg() == old(self).seg(),
            final(self).anchor_off() == old(self).anchor_off(),
            final(self).limit_of() == old(self).limit_of(),
            final(self).attempts() == old(self).attempts() + 1,
            match find_align(data@, old(self).read_start(), old(self).next_first()) {
                Some(k) => final(self).window() == backward_kept(data@, old(self).read_start(), k)
                    + old(self).window(),
                None => final(self).window() == old(self).window(),
            },
            final(self).is_done() <==> (old(self).read_start() == 0
                || old(self).attempts() + 1 == FETCH_ATTEMPT_NUM
                || (find_align(data@, old(self).read_start(), old(self).next_first()) is Some
                    && final(self).window().len() >= old(self).limit_of())),
    {
        let req = self.compute_request();
        let first = req.offset + req.length;
        let ghost old_win = self.window();
        proof {
            assert(first == self.next_first());
            assert(req.offset + data@.len() <= u32::MAX);
        }
        let ghost gfound = find_align(data@, req.offset, first);
        let mut found = false;
        let mut run: Vec<DecodedInstruction> = Vec::new();
        let mut k: usize = 0;
        loop
            invariant_except_break
                k <= data@.len(),
                !found,
                find_align_from(data@, req.offset, first, k as nat) == gfound,
                req.offset + data@.len() <= u32::MAX,
                gfound == find_align(data@, req.offset, first),
            ensures
                found <==> gfound is Some,
                found ==> gfound == Some(k as nat) && k < data@.len()
                    && align_ok(data@, req.offset, first, k as nat)
                    && views(run@) == decode_run(data@, req.offset, k as nat),
            decreases data@.len() - k,
        {
            if k >= data.len() {
                proof {
                    assert(find_align_from(data@, req.offset, first, k as nat) is None);
                }
                break;
            }
            let cand = decode_stream(data.as_slice(), req.offset, k);
            let mut hit = false;
            if cand.len() > 0 {
                if cand[cand.len() - 1].next_offset == first {
                    hit = true;
                }
            }
            proof {
                let kv = decode_run(data@, req.offset, k as nat);
                assert(kv == views(cand@));
                if cand@.len() > 0 {
                    assert(kv.last() == cand@[cand@.len() - 1]@);
                }
                assert(hit == align_ok(data@, req.offset, first, k as nat));
            }
            if hit {
                found = true;
                run = cand;
                break;
            }
            k = k + 1;
        }
        if found {
            let ghost run0 = views(run@);
            proof {
                lemma_decode_run_wf(data@, req.offset, k as nat);
            }
            if req.offset > 0 {
                let mut dropped: usize = 0;
                loop
                    invariant_except_break
                        dropped < SKIP_INSTR_LEN,
                    invariant
                        window_wf(views(run@)),
                        drop_head_rec(views(run@), dropped as int) == drop_head(run0),
                    ensures
                        views(run@) == drop_head(run0),
                    decreases run@.len(),
                {
                    if run.len() == 0 {
                        break;
                    }
                    let ghost prev = views(run@);
                    let head = run.remove(0);
                    proof {
                        assert(views(run@) =~= prev.skip(1));
                        assert(prev[0] == head@);
                        assert(instr_wf(prev[0]));
                        lemma_window_wf_skip(prev, 1);
                    }
                    dropped = dropped + head.length;
                    if dropped >= SKIP_INSTR_LEN {
                        break;
                    }
                }
            }
            let ghost kept = views(run@);
            proof {
                lemma_drop_head_rec_suffix(run0, 0);
                assert(kept == run0.skip(run0.len() - kept.len())) by {
                    if req.offset == 0 {
                        assert(run0.skip(0) =~= run0);
                    }
                }
                lemma_window_wf_skip(run0, run0.len() - kept.len());
                if kept.len() > 0 {
                    assert(kept.last() == run0.last());
                    assert(run0.last().next == first);
                }
                if kept.len() > 0 && old_win.len() > 0 {
                    assert(old_win[0].start == first);
                }
                lemma_window_concat(kept, old_win);
                assert(kept == backward_kept(data@, req.offset, k as nat));
            }
            run.append(&mut self.code);
            self.code = run;
            proof {
                assert(self.window() =~= kept + old_win);
                if old_win.len() > 0 {
                    assert(self.window().last() == old_win.last());
                } else if kept.len() > 0 {
                    assert(self.window().last() == kept.last());
                }
            }
            self.attempt = self.attempt + 1;
            self.done = req.offset == 0 || self.code.len() >= self.limit
                || self.attempt == FETCH_ATTEMPT_NUM;
        } else {
            self.attempt = self.attempt + 1;
            self.done = req.offset == 0 || self.attempt == FETCH_ATTEMPT_NUM;
        }
    }

    /// Surrender the collected window: a well-formed window whose last
    /// instruction, if any, ends exactly at the anchor.
    pub fn take(self) -> (r: Vec<DecodedInstruction>)
        requires
            self.wf(),
        ensures
            views(r@) == self.window(),
            window_wf(views(r@)),
            views(r@).len() > 0 ==> views(r@).last().next == self.anchor_off(),
    {
        self.code
    }

    /// Resynchronization terminates: a well-formed resynchronizer never
    /// passes the attempt budget, every `feed` raises the attempt count by
    /// one, and once the budget is spent `request` returns `None`; so a
    /// driver that reads and feeds in a loop makes at most
    /// `FETCH_ATTEMPT_NUM` round trips, whether or not any alignment is
    /// ever found.
    pub proof fn lemma_attempts_bounded(&self)
        requires
            self.wf(),
        ensures
            self.attempts() <= FETCH_ATTEMPT_NUM,
            self.attempts() == FETCH_ATTEMPT_NUM ==> self.is_done(),
    {
    }
}

/// Round-trip resynchronization: anchor a backward fetch at a boundary a
/// forward fetch established — here the end of the forward window's first
/// instruction — and everything it recovers ends exactly at that boundary.
/// Whether it recovers anything at all depends on what the memory port
/// answers, so that is hypothesis, not conclusion.
pub proof fn lemma_resync_round_trip(after: &FetchAfter, before: &FetchBefore)
    requires
        after.wf(),
        before.wf(),
        after.window().len() > 0,
        before.anchor_off() == after.window()[0].next,
        before.window().len() > 0,
    ensures
        before.window().last().next == after.window()[0].next,
{
}

} // verus!
