//! The decoder adapter: decoding a byte buffer into a contiguous run of
//! real-mode instructions, one instruction at a time.
//!
//! Decoding itself is done by `iced_x86` behind two trusted wrappers; the
//! stream logic on top of them is verified.  A decoded run stops at the first
//! undecodable position; it never skips bytes and resumes.

use vstd::prelude::*;

verus! {

/// Maximal length of one x86 instruction in bytes.
pub const MAX_INSTR_LEN: usize = 15;

/// Number of bytes treated as unreliable at the uncertain end of a fetched
/// chunk: a few instructions' worth of margin.
pub const SKIP_INSTR_LEN: usize = MAX_INSTR_LEN * 3;

/// Number of attempts one fetch operation may make before giving up.
pub const FETCH_ATTEMPT_NUM: usize = 5;

/// Exclusive ceiling of the 16-bit offset space: fetches never read at or
/// past this offset.
pub const OFFSET_CEILING: u32 = 0xFFFF;

/// What the decoder reports for one position in a byte buffer: whether an
/// instruction starts there, how many bytes it takes, and how it is
/// classified for the step-over logic.
#[derive(Copy, Clone, PartialEq, Eq, Structural, Debug)]
pub struct Decoded {
    /// No instruction could be decoded at this position.
    pub invalid: bool,
    /// Number of bytes the instruction occupies.
    pub len: usize,
    /// A near or far call, direct or indirect.
    pub call: bool,
    /// A `loop`/`loope`/`loopne` instruction.
    pub looping: bool,
    /// Carries a `rep` or `repne` prefix.
    pub rep: bool,
    /// A software interrupt (`int imm8`).
    pub int_imm8: bool,
}

/// What the real-mode decoder yields for the byte sequence `tail` decoded at
/// instruction pointer `ip`: a pure function of its arguments.
pub uninterp spec fn decode_of(tail: Seq<u8>, ip: u32) -> Decoded;

/// What the disassembly formatter renders for the instruction at the start of
/// `tail` decoded at instruction pointer `ip`: mnemonic text and operand
/// text, a pure function of its arguments.
pub uninterp spec fn disasm_of(tail: Seq<u8>, ip: u32) -> (Seq<char>, Seq<char>);

/// Relies on iced_x86's `Decoder`: decoding is a pure function of the bytes
/// from the given position on and of the instruction pointer, a decoded
/// instruction occupies 1 to 15 bytes of the buffer, and an instruction that
/// would run past the end of the buffer is reported as invalid.
#[verifier::external_body]
pub(crate) fn decode_one(data: &[u8], pos: usize, ip: u32) -> (r: Decoded)
    requires
        pos <= data@.len(),
    ensures
        r == decode_of(data@.skip(pos as int), ip),
        !r.invalid ==> 1 <= r.len <= MAX_INSTR_LEN,
        !r.invalid ==> pos + r.len <= data@.len(),
{
    let mut dec = iced_x86::Decoder::with_ip(16, &data[pos..], ip as u64, iced_x86::DecoderOptions::NONE);
    let ins = dec.decode();
    Decoded {
        invalid: ins.is_invalid(),
        len: ins.len(),
        call: ins.is_call_near() || ins.is_call_far() || ins.is_call_near_indirect() || ins.is_call_far_indirect(),
        looping: ins.is_loop(),
        rep: ins.has_rep_prefix() || ins.has_repne_prefix(),
        int_imm8: (matches!(ins.code(), iced_x86::Code::Int_imm8)),
    }
}

/// Relies on iced_x86's `IntelFormatter`: the rendered mnemonic and operand
/// text are a pure function of the bytes from the given position on and of
/// the instruction pointer.
#[verifier::external_body]
fn disasm_one(data: &[u8], pos: usize, ip: u32) -> (r: (String, String))
    requires
        pos <= data@.len(),
    ensures
        (r.0@, r.1@) == disasm_of(data@.skip(pos as int), ip),
{
    let mut dec = iced_x86::Decoder::with_ip(16, &data[pos..], ip as u64, iced_x86::DecoderOptions::NONE);
    let ins = dec.decode();
    let mut fmt = iced_x86::IntelFormatter::new();
    iced_x86::Formatter::options_mut(&mut fmt).set_space_after_operand_separator(true);
    let mut mnemonic = String::new();
    let mut operands = String::new();
    iced_x86::Formatter::format_mnemonic(&mut fmt, &ins, &mut mnemonic);
    iced_x86::Formatter::format_all_operands(&mut fmt, &ins, &mut operands);
    (mnemonic, operands)
}

/// One decoded instruction as it is materialized in an instruction window.
pub struct DecodedInstruction {
    /// Offset of the first byte of the instruction within its segment.
    pub start_offset: u32,
    /// Offset one past the last byte: `start_offset + length`.
    pub next_offset: u32,
    /// Number of bytes the instruction occupies.
    pub length: usize,
    /// The instruction's own bytes.
    pub raw_bytes: Vec<u8>,
    /// The decoder's classification record for this instruction.
    pub kind: Decoded,
    /// Rendered mnemonic.
    pub mnemonic: String,
    /// Rendered operand text.
    pub operands: String,
}

/// The mathematical image of one materialized instruction.
pub ghost struct InstrV {
    pub start: u32,
    pub next: u32,
    pub len: nat,
    pub bytes: Seq<u8>,
    pub kind: Decoded,
    pub mnemonic: Seq<char>,
    pub operands: Seq<char>,
}

impl View for DecodedInstruction {
    type V = InstrV;

    open spec fn view(&self) -> InstrV {
        InstrV {
            start: self.start_offset,
            next: self.next_offset,
            len: self.length as nat,
            bytes: self.raw_bytes@,
            kind: self.kind,
            mnemonic: self.mnemonic@,
            operands: self.operands@,
        }
    }
}

/// The views of every instruction in a materialized sequence.
pub open spec fn views(s: Seq<DecodedInstruction>) -> Seq<InstrV> {
    s.map_values(|i: DecodedInstruction| i@)
}

/// A single well-formed instruction record: valid, of consistent length, and
/// carrying exactly its own bytes.
pub open spec fn instr_wf(v: InstrV) -> bool {
    &&& !v.kind.invalid
    &&& 1 <= v.len <= MAX_INSTR_LEN
    &&& v.next == v.start + v.len
    &&& v.bytes.len() == v.len
    &&& v.kind.len == v.len
}

/// Adjacency: consecutive instructions are contiguous in address space,
/// with no gaps and no overlaps.
pub open spec fn contiguous(s: Seq<InstrV>) -> bool {
    forall|i: int| #![trigger s[i]] 0 <= i < s.len() - 1 ==> s[i].next == s[i + 1].start
}

/// A well-formed instruction window: every record well formed and the whole
/// sequence contiguous.
pub open spec fn window_wf(s: Seq<InstrV>) -> bool {
    &&& contiguous(s)
    &&& forall|i: int| 0 <= i < s.len() ==> instr_wf(#[trigger] s[i])
}

/// The image of the instruction decoded at position `pos` of `data`, where
/// `data[0]` sits at offset `base` in its segment.
pub open spec fn instr_at(data: Seq<u8>, base: u32, pos: nat, d: Decoded) -> InstrV {
    InstrV {
        start: (base + pos) as u32,
        next: (base + pos + d.len) as u32,
        len: d.len as nat,
        bytes: data.subrange(pos as int, pos + d.len),
        kind: d,
        mnemonic: disasm_of(data.skip(pos as int), (base + pos) as u32).0,
        operands: disasm_of(data.skip(pos as int), (base + pos) as u32).1,
    }
}

/// The maximal run of valid instructions decoded from position `pos` of
/// `data` on, where `data[0]` sits at offset `base`.  The run ends at the
/// first position where the decoder reports an undecodable byte; it does not
/// skip and resume.
pub open spec fn decode_run(data: Seq<u8>, base: u32, pos: nat) -> Seq<InstrV>
    decreases data.len() - pos,
{
    if pos >= data.len() {
        Seq::empty()
    } else {
        let d = decode_of(data.skip(pos as int), (base + pos) as u32);
        if d.invalid || d.len < 1 || d.len > MAX_INSTR_LEN || pos + d.len > data.len() {
            Seq::empty()
        } else {
            seq![instr_at(data, base, pos, d)] + decode_run(data, base, (pos + d.len) as nat)
        }
    }
}

/// A decoded run is a well-formed window: every instruction valid, lengths
/// consistent, bytes drawn from the buffer, and the whole run contiguous
/// starting at `base + pos`.
pub proof fn lemma_decode_run_wf(data: Seq<u8>, base: u32, pos: nat)
    requires
        pos <= data.len(),
        base + data.len() <= u32::MAX,
    ensures
        window_wf(decode_run(data, base, pos)),
        decode_run(data, base, pos).len() > 0 ==> decode_run(data, base, pos)[0].start == base + pos,
        forall|i: int| 0 <= i < decode_run(data, base, pos).len()
            ==> (#[trigger] decode_run(data, base, pos)[i].next) <= base + data.len(),
    decreases data.len() - pos,
{
    let run = decode_run(data, base, pos);
    if pos < data.len() {
        let d = decode_of(data.skip(pos as int), (base + pos) as u32);
        if !(d.invalid || d.len < 1 || d.len > MAX_INSTR_LEN || pos + d.len > data.len()) {
            lemma_decode_run_wf(data, base, (pos + d.len) as nat);
            let rest = decode_run(data, base, (pos + d.len) as nat);
            assert(run == seq![instr_at(data, base, pos, d)] + rest);
            assert(instr_wf(run[0]));
            assert forall|i: int| 0 <= i < run.len() implies instr_wf(#[trigger] run[i]) by {
                if i > 0 {
                    assert(run[i] == rest[i - 1]);
                }
            }
            assert forall|i: int| #![trigger run[i]] 0 <= i < run.len() - 1 implies run[i].next == run[i + 1].start by {
                if i > 0 {
                    assert(run[i] == rest[i - 1]);
                    assert(run[i + 1] == rest[i]);
                } else {
                    if rest.len() > 0 {
                        assert(rest[0].start == base + ((pos + d.len) as nat));
                    }
                }
            }
            assert forall|i: int| 0 <= i < run.len() implies (#[trigger] run[i].next) <= base + data.len() by {
                if i > 0 {
                    assert(run[i] == rest[i - 1]);
                }
            }
        }
    }
}

/// Decode the maximal valid run from position `from` of `data` on, realizing
/// `decode_run` as a vector of materialized instructions.
pub fn decode_stream(data: &[u8], base: u32, from: usize) -> (out: Vec<DecodedInstruction>)
    requires
        from <= data@.len(),
        base + data@.len() <= u32::MAX,
    ensures
        views(out@) == decode_run(data@, base, from as nat),
{
    let ghost whole = decode_run(data@, base, from as nat);
    let n = data.len();
    let mut out: Vec<DecodedInstruction> = Vec::new();
    let mut pos: usize = from;
    loop
        invariant
            from <= pos <= data@.len(),
            data@.len() == n,
            base + data@.len() <= u32::MAX,
            views(out@) + decode_run(data@, base, pos as nat) == whole,
            whole == decode_run(data@, base, from as nat),
        ensures
            views(out@) == whole,
        decreases data@.len() - pos,
    {
        let d = decode_one(data, pos, base + pos as u32);
        if d.invalid {
            proof {
                assert(decode_run(data@, base, pos as nat) == Seq::<InstrV>::empty());
                assert(views(out@) + Seq::<InstrV>::empty() =~= views(out@));
            }
            break;
        }
        let (mnemonic, operands) = disasm_one(data, pos, base + pos as u32);
        let mut raw: Vec<u8> = Vec::new();
        let mut i: usize = 0;
        proof {
            assert(raw@ =~= data@.subrange(pos as int, pos as int));
        }
        while i < d.len
            invariant
                i <= d.len,
                pos + d.len <= data@.len(),
                data@.len() == n,
                raw@ == data@.subrange(pos as int, pos + i),
            decreases d.len - i,
        {
            let b = data[pos + i];
            raw.push(b);
            proof {
                assert(raw@ =~= data@.subrange(pos as int, pos + i + 1));
            }
            i = i + 1;
        }
        let ins = DecodedInstruction {
            start_offset: base + pos as u32,
            next_offset: base + (pos + d.len) as u32,
            length: d.len,
            raw_bytes: raw,
            kind: d,
            mnemonic,
            operands,
        };
        proof {
            assert(ins@ == instr_at(data@, base, pos as nat, d));
            assert(decode_run(data@, base, pos as nat)
                == seq![instr_at(data@, base, pos as nat, d)] + decode_run(data@, base, (pos + d.len) as nat));
        }
        let ghost prev = out@;
        out.push(ins);
        proof {
            assert(views(out@) =~= views(prev).push(ins@));
            assert(views(out@) + decode_run(data@, base, (pos + d.len) as nat)
                =~= views(prev) + decode_run(data@, base, pos as nat));
        }
        pos = pos + d.len;
    }
    out
}

/// Drop instructions from the tail of a freshly decoded batch until strictly
/// more than `SKIP_INSTR_LEN` bytes have been discarded (or the batch is
/// gone), counting `popped` bytes as already discarded.
pub open spec fn trim_tail_rec(s: Seq<InstrV>, popped: int) -> Seq<InstrV>
    decreases s.len(),
{
    if s.len() == 0 {
        s
    } else if popped + s.last().len > SKIP_INSTR_LEN {
        s.drop_last()
    } else {
        trim_tail_rec(s.drop_last(), popped + s.last().len)
    }
}

/// Defensive trimming of a chunk's uncertain tail: see `trim_tail_rec`.
pub open spec fn trim_tail(s: Seq<InstrV>) -> Seq<InstrV> {
    trim_tail_rec(s, 0)
}

/// Drop instructions from the head of an accepted run until at least
/// `SKIP_INSTR_LEN` bytes have been discarded (or the run is gone), counting
/// `dropped` bytes as already discarded.
pub open spec fn drop_head_rec(s: Seq<InstrV>, dropped: int) -> Seq<InstrV>
    decreases s.len(),
{
    if s.len() == 0 || dropped >= SKIP_INSTR_LEN {
        s
    } else {
        drop_head_rec(s.skip(1), dropped + s.first().len)
    }
}

/// Discarding an accepted run's unreliable leading margin: see
/// `drop_head_rec`.
pub open spec fn drop_head(s: Seq<InstrV>) -> Seq<InstrV> {
    drop_head_rec(s, 0)
}

/// A prefix of a well-formed window is a well-formed window with the same
/// first instruction.
pub proof fn lemma_window_wf_take(s: Seq<InstrV>, n: int)
    requires
        window_wf(s),
        0 <= n <= s.len(),
    ensures
        window_wf(s.take(n)),
{
    let t = s.take(n);
    assert forall|i: int| #![trigger t[i]] 0 <= i < t.len() - 1 implies t[i].next == t[i + 1].start by {
        assert(t[i] == s[i]);
        assert(t[i + 1] == s[i + 1]);
        assert(s[i].next == s[i + 1].start);
    }
    assert forall|i: int| 0 <= i < t.len() implies instr_wf(#[trigger] t[i]) by {
        assert(t[i] == s[i]);
        assert(instr_wf(s[i]));
    }
}

/// A suffix of a well-formed window is a well-formed window with the same
/// last instruction.
pub proof fn lemma_window_wf_skip(s: Seq<InstrV>, n: int)
    requires
        window_wf(s),
        0 <= n <= s.len(),
    ensures
        window_wf(s.skip(n)),
{
    let t = s.skip(n);
    assert forall|i: int| #![trigger t[i]] 0 <= i < t.len() - 1 implies t[i].next == t[i + 1].start by {
        assert(t[i] == s[i + n]);
        assert(t[i + 1] == s[i + n + 1]);
        assert(s[i + n].next == s[i + n + 1].start);
    }
    assert forall|i: int| 0 <= i < t.len() implies instr_wf(#[trigger] t[i]) by {
        assert(t[i] == s[i + n]);
        assert(instr_wf(s[i + n]));
    }
}

/// Two well-formed windows whose seam is contiguous concatenate to a
/// well-formed window.
pub proof fn lemma_window_concat(a: Seq<InstrV>, b: Seq<InstrV>)
    requires
        window_wf(a),
        window_wf(b),
        a.len() > 0 && b.len() > 0 ==> a.last().next == b[0].start,
    ensures
        window_wf(a + b),
{
    let c = a + b;
    assert forall|i: int| #![trigger c[i]] 0 <= i < c.len() - 1 implies c[i].next == c[i + 1].start by {
        if i < a.len() - 1 {
            assert(c[i] == a[i]);
            assert(c[i + 1] == a[i + 1]);
            assert(a[i].next == a[i + 1].start);
        } else if i == a.len() - 1 {
            assert(c[i] == a[i]);
            assert(c[i + 1] == b[0]);
        } else {
            assert(c[i] == b[i - a.len()]);
            assert(c[i + 1] == b[i - a.len() + 1]);
            assert(b[i - a.len()].next == b[i - a.len() + 1].start);
        }
    }
    assert forall|i: int| 0 <= i < c.len() implies instr_wf(#[trigger] c[i]) by {
        if i < a.len() {
            assert(c[i] == a[i]);
            assert(instr_wf(a[i]));
        } else {
            assert(c[i] == b[i - a.len()]);
            assert(instr_wf(b[i - a.len()]));
        }
    }
}

/// Trimming the tail keeps a prefix of the batch.
pub proof fn lemma_trim_tail_rec_prefix(s: Seq<InstrV>, popped: int)
    ensures
        trim_tail_rec(s, popped).len() <= s.len(),
        trim_tail_rec(s, popped) == s.take(trim_tail_rec(s, popped).len() as int),
    decreases s.len(),
{
    if s.len() == 0 {
        assert(trim_tail_rec(s, popped) =~= s.take(trim_tail_rec(s, popped).len() as int));
    } else if popped + s.last().len > SKIP_INSTR_LEN {
        assert(s.drop_last() =~= s.take(s.len() - 1));
    } else {
        lemma_trim_tail_rec_prefix(s.drop_last(), popped + s.last().len);
        let r = trim_tail_rec(s.drop_last(), popped + s.last().len);
        assert(s.drop_last().take(r.len() as int) =~= s.take(r.len() as int));
    }
}

/// Dropping the head keeps a suffix of the run.
pub proof fn lemma_drop_head_rec_suffix(s: Seq<InstrV>, dropped: int)
    ensures
        drop_head_rec(s, dropped).len() <= s.len(),
        drop_head_rec(s, dropped) == s.skip(s.len() - drop_head_rec(s, dropped).len()),
    decreases s.len(),
{
    if s.len() == 0 || dropped >= SKIP_INSTR_LEN {
        assert(drop_head_rec(s, dropped) =~= s.skip(s.len() - drop_head_rec(s, dropped).len()));
    } else {
        lemma_drop_head_rec_suffix(s.skip(1), dropped + s.first().len);
        let r = drop_head_rec(s.skip(1), dropped + s.first().len);
        assert(s.skip(1).skip(s.skip(1).len() - r.len()) =~= s.skip(s.len() - r.len()));
    }
}

} // verus!
