//! The code pane's viewport: a materialized instruction window, a scroll
//! offset and an optional selection cursor, driven by navigation events.
//!
//! Scrolling inside the materialized window is fetch-free; only scrolling
//! past its edges asks for a fetch, which the caller performs through the
//! fetchers in `x86::fetch` and hands back in.

use vstd::prelude::*;

use crate::tui::PaneStatus;
use crate::x86::Address;
use crate::x86::dec::{
    DecodedInstruction, InstrV, views, window_wf, lemma_window_concat,
};

verus! {

/// Rows of context kept visible below the instruction pointer when the
/// viewport re-centers after a jump.
pub const BOTTOM_PADDING: usize = 4;

/// A navigation event the pane receives.
#[derive(Copy, Clone, PartialEq, Eq, Structural, Debug)]
pub enum Message {
    Up,
    Down,
    Enter,
    Escape,
}

/// What handling an event asks of the caller: re-render (or not), or
/// perform a fetch against the given anchor and feed the result back
/// through `apply_before` / `apply_after`.
#[derive(Copy, Clone, PartialEq, Eq, Structural, Debug)]
pub enum Effect {
    /// Nothing to fetch; re-render exactly when the payload is true.
    Render(bool),
    /// Resynchronize backward from the given anchor, with the given
    /// instruction limit.
    NeedBefore(Address, usize),
    /// Fetch forward from the given anchor, with the given limit.
    NeedAfter(Address, usize),
}

/// The mathematical image of a viewport.
pub ghost struct CodeV {
    pub status: PaneStatus,
    pub addr: Address,
    pub height: nat,
    pub window: Seq<InstrV>,
    pub skip: nat,
    pub cursor: Option<nat>,
}

/// Saturating subtraction over the mathematical integers.
pub open spec fn sat_sub(a: int, b: int) -> int {
    if a >= b {
        a - b
    } else {
        0
    }
}

/// How many materialized rows lie below the visible region: while this is
/// positive, scrolling down only moves `skip`.
pub open spec fn rows_below(s: CodeV) -> int {
    sat_sub(
        sat_sub(s.window.len() as int, s.skip as int),
        match s.cursor {
            Some(p) => p as int,
            None => s.height as int,
        },
    )
}

/// One navigation step of the viewport: the next state and what the caller
/// must do.  Evaluated in priority order: cursor movement inside the
/// visible region, then scrolling inside the materialized window, then a
/// fetch at the window's edge.
pub open spec fn code_step(s: CodeV, msg: Message) -> (CodeV, Effect) {
    if !s.status.attached {
        (s, Effect::Render(false))
    } else {
        match msg {
            Message::Up => {
                if s.cursor is Some && s.cursor->0 > 0 {
                    (
                        CodeV { cursor: Some((s.cursor->0 - 1) as nat), ..s },
                        Effect::Render(true),
                    )
                } else if s.skip > 0 {
                    (CodeV { skip: (s.skip - 1) as nat, ..s }, Effect::Render(true))
                } else if s.window.len() > 0 {
                    (
                        s,
                        Effect::NeedBefore(
                            Address { segment: s.addr.segment, offset: s.window[0].start },
                            s.height as usize,
                        ),
                    )
                } else {
                    (s, Effect::Render(false))
                }
            },
            Message::Down => {
                if s.cursor is Some && s.cursor->0 + 1 < s.height {
                    (
                        CodeV { cursor: Some((s.cursor->0 + 1) as nat), ..s },
                        Effect::Render(true),
                    )
                } else if rows_below(s) > 0 {
                    (CodeV { skip: (s.skip + 1) as nat, ..s }, Effect::Render(true))
                } else if s.window.len() > 0 {
                    (
                        s,
                        Effect::NeedAfter(
                            Address {
                                segment: s.addr.segment,
                                offset: s.window.last().next,
                            },
                            s.height as usize,
                        ),
                    )
                } else {
                    (s, Effect::Render(false))
                }
            },
            Message::Enter => {
                if s.cursor is None {
                    (CodeV { cursor: Some(0), ..s }, Effect::Render(true))
                } else {
                    (s, Effect::Render(false))
                }
            },
            Message::Escape => {
                if s.cursor is Some {
                    (CodeV { cursor: None, ..s }, Effect::Render(true))
                } else {
                    (s, Effect::Render(false))
                }
            },
        }
    }
}

/// The code pane's viewport state.
pub struct Code {
    status: PaneStatus,
    addr: Address,
    height: usize,
    code: Vec<DecodedInstruction>,
    skip: usize,
    pos: Option<usize>,
}

impl Code {
    /// The mathematical image of this viewport.
    pub closed spec fn v(&self) -> CodeV {
        CodeV {
            status: self.status,
            addr: self.addr,
            height: self.height as nat,
            window: views(self.code@),
            skip: self.skip as nat,
            cursor: match self.pos {
                Some(p) => Some(p as nat),
                None => None,
            },
        }
    }

    /// The viewport's invariant: the window is well formed, the scroll
    /// offset stays inside it, and the cursor stays inside the visible
    /// region it was created in.
    pub open spec fn wf(&self) -> bool {
        &&& window_wf(self.v().window)
        &&& self.v().skip <= self.v().window.len()
        &&& (self.v().cursor matches Some(p) ==> p == 0 || p < self.v().height)
    }

    /// A fresh viewport: no window, no scroll, no selection.  The caller
    /// fetches the first window (when attached) and installs it.
    pub fn new(status: PaneStatus, addr: Address, height: usize) -> (r: Code)
        ensures
            r.wf(),
            r.v().status == status,
            r.v().addr == addr,
            r.v().height == height,
            r.v().window == Seq::<InstrV>::empty(),
            r.v().skip == 0,
            r.v().cursor is None,
    {
        let r = Code { status, addr, height, code: Vec::new(), skip: 0, pos: None };
        proof {
            assert(r.v().window =~= Seq::<InstrV>::empty());
        }
        r
    }

    /// Replace the window wholesale: after attach or after a jump whose
    /// target was not materialized.
    pub fn install_window(&mut self, c: Vec<DecodedInstruction>)
        requires
            old(self).wf(),
            window_wf(views(c@)),
        ensures
            final(self).wf(),
            final(self).v() == (CodeV {
                window: views(c@),
                skip: 0,
                cursor: None,
                ..old(self).v()
            }),
    {
        self.code = c;
        self.skip = 0;
        self.pos = None;
    }

    /// Handle one navigation event, as `code_step` says.
    pub fn update(&mut self, msg: Message) -> (r: Effect)
        requires
            old(self).wf(),
        ensures
            final(self).wf(),
            (final(self).v(), r) == code_step(old(self).v(), msg),
    {
        if !self.status.attached {
            return Effect::Render(false);
        }
        match msg {
            Message::Up => {
                match self.pos {
                    Some(p) if p > 0 => {
                        self.pos = Some(p - 1);
                        Effect::Render(true)
                    },
                    _ => {
                        if self.skip > 0 {
                            self.skip = self.skip - 1;
                            Effect::Render(true)
                        } else if self.code.len() > 0 {
                            Effect::NeedBefore(
                                Address {
                                    segment: self.addr.segment,
                                    offset: self.code[0].start_offset,
                                },
                                self.height,
                            )
                        } else {
                            Effect::Render(false)
                        }
                    },
                }
            },
            Message::Down => {
                let visible = match self.pos {
                    Some(p) => p,
                    None => self.height,
                };
                match self.pos {
                    Some(p) if p + 1 < self.height => {
                        self.pos = Some(p + 1);
                        Effect::Render(true)
                    },
                    _ => {
                        let below = saturating_sub_usize(
                            saturating_sub_usize(self.code.len(), self.skip),
                            visible,
                        );
                        if below > 0 {
                            self.skip = self.skip + 1;
                            Effect::Render(true)
                        } else if self.code.len() > 0 {
                            let last = self.code.len() - 1;
                            Effect::NeedAfter(
                                Address {
                                    segment: self.addr.segment,
                                    offset: self.code[last].next_offset,
                                },
                                self.height,
                            )
                        } else {
                            Effect::Render(false)
                        }
                    },
                }
            },
            Message::Enter => {
                if self.pos.is_none() {
                    self.pos = Some(0);
                    Effect::Render(true)
                } else {
                    Effect::Render(false)
                }
            },
            Message::Escape => {
                if self.pos.is_some() {
                    self.pos = None;
                    Effect::Render(true)
                } else {
                    Effect::Render(false)
                }
            },
        }
    }

    /// Prepend a freshly resynchronized fragment: the new rows become the
    /// scroll offset, so the previously-top row stays in view.  An empty
    /// fragment changes nothing.
    pub fn apply_before(&mut self, c: Vec<DecodedInstruction>) -> (r: bool)
        requires
            old(self).wf(),
            window_wf(views(c@)),
            views(c@).len() > 0 && old(self).v().window.len() > 0
                ==> views(c@).last().next == old(self).v().window[0].start,
        ensures
            final(self).wf(),
            views(c@).len() == 0 ==> final(self).v() == old(self).v() && r == false,
            views(c@).len() > 0 ==> final(self).v() == (CodeV {
                window: views(c@) + old(self).v().window,
                skip: (views(c@).len() - 1) as nat,
                ..old(self).v()
            }) && r == true,
    {
        if c.len() == 0 {
            return false;
        }
        let mut c = c;
        let ghost cv = views(c@);
        let ghost old_win = self.v().window;
        proof {
            lemma_window_concat(cv, old_win);
        }
        self.skip = c.len() - 1;
        c.append(&mut self.code);
        self.code = c;
        proof {
            assert(self.v().window =~= cv + old_win);
        }
        true
    }

    /// Append a freshly fetched fragment and scroll one row down into it.
    /// An empty fragment changes nothing.
    pub fn apply_after(&mut self, c: Vec<DecodedInstruction>) -> (r: bool)
        requires
            old(self).wf(),
            window_wf(views(c@)),
            views(c@).len() > 0 && old(self).v().window.len() > 0
                ==> views(c@)[0].start == old(self).v().window.last().next,
        ensures
            final(self).wf(),
            views(c@).len() == 0 ==> final(self).v() == old(self).v() && r == false,
            views(c@).len() > 0 ==> final(self).v() == (CodeV {
                window: old(self).v().window + views(c@),
                skip: old(self).v().skip + 1,
                ..old(self).v()
            }) && r == true,
    {
        if c.len() == 0 {
            return false;
        }
        let mut c = c;
        let ghost cv = views(c@);
        let ghost old_win = self.v().window;
        proof {
            lemma_window_concat(old_win, cv);
        }
        self.code.append(&mut c);
        proof {
            assert(self.v().window =~= old_win + cv);
        }
        // the old scroll offset sat inside the old window, so it is
        // strictly below the grown length: the step never saturates
        let n = self.code.len();
        if self.skip < n {
            self.skip = self.skip + 1;
        }
        true
    }

    /// React to new pane properties, as `change_step` says: nothing if they
    /// are unchanged; on a discontinuous jump, keep the window if the new
    /// instruction pointer is already visible and only re-center the scroll
    /// offset, otherwise ask for a fresh fetch at the new anchor.
    pub fn change(&mut self, status: PaneStatus, addr: Address) -> (r: ChangeEffect)
        requires
            old(self).wf(),
        ensures
            final(self).wf(),
            (final(self).v(), r) == change_step(old(self).v(), status, addr),
    {
        if self.status == status && self.addr == addr {
            return ChangeEffect::Unchanged;
        }
        self.status = status;
        self.addr = addr;
        if !self.status.attached {
            return ChangeEffect::Render;
        }
        let visible = saturating_sub_usize(self.code.len(), self.skip);
        let count = if self.height < visible {
            self.height
        } else {
            visible
        };
        let ghost sv = old(self).v();
        let mut i: usize = 0;
        let mut found = false;
        loop
            invariant_except_break
                !found,
                i <= count,
                count == visible_count(sv),
                sv.window.len() <= usize::MAX,
                self.v() == (CodeV { status, addr, ..sv }),
                old(self).wf(),
                find_visible_from(sv, addr.offset, i as nat)
                    == find_visible(sv, addr.offset),
            ensures
                old(self).wf(),
                count == visible_count(sv),
                self.v() == (CodeV { status, addr, ..sv }),
                found <==> find_visible(sv, addr.offset) is Some,
                found ==> find_visible(sv, addr.offset) == Some(i as nat) && i < count,
            decreases count - i,
        {
            if i >= count {
                break;
            }
            if self.code[self.skip + i].start_offset == addr.offset {
                found = true;
                break;
            }
            i = i + 1;
        }
        if found {
            let pad = saturating_sub_usize(self.height, BOTTOM_PADDING);
            self.skip = self.skip + saturating_sub_usize(i, pad);
            self.pos = None;
            ChangeEffect::Render
        } else {
            ChangeEffect::Refetch(addr, self.height)
        }
    }

    /// The rows the pane should draw: the visible slice of the window, each
    /// row carrying its address, bytes and text, and whether it is the
    /// current instruction or the selected row.
    pub fn render(&self) -> (r: Vec<Row>)
        requires
            self.wf(),
        ensures
            r@.len() == visible_count(self.v()),
            forall|i: int| 0 <= i < r@.len() ==> #[trigger] r@[i]@ == row_at(self.v(), i),
    {
        let visible = saturating_sub_usize(self.code.len(), self.skip);
        let count = if self.height < visible {
            self.height
        } else {
            visible
        };
        let mut out: Vec<Row> = Vec::new();
        let mut i: usize = 0;
        while i < count
            invariant
                i <= count,
                count == visible_count(self.v()),
                self.v().window.len() <= usize::MAX,
                self.wf(),
                out@.len() == i,
                forall|j: int| 0 <= j < i ==> #[trigger] out@[j]@ == row_at(self.v(), j),
            decreases count - i,
        {
            let ins = &self.code[self.skip + i];
            let selected = self.status.attached && match self.pos {
                Some(p) => p == i,
                None => false,
            };
            let row = Row {
                segment: self.addr.segment,
                offset: ins.start_offset,
                bytes: clone_bytes(&ins.raw_bytes),
                mnemonic: clone_text(&ins.mnemonic),
                operands: clone_text(&ins.operands),
                is_current: ins.start_offset == self.addr.offset,
                is_selected: selected,
            };
            proof {
                assert(row@ == row_at(self.v(), i as int));
            }
            out.push(row);
            i = i + 1;
        }
        out
    }
}

/// The state after `n` `Down` events.
pub open spec fn down_n(s: CodeV, n: nat) -> CodeV
    decreases n,
{
    if n == 0 {
        s
    } else {
        code_step(down_n(s, (n - 1) as nat), Message::Down).0
    }
}

/// Scrolling inside a materialized window is fetch-free: with no selection
/// cursor and at least `count` rows between the bottom of the visible
/// region and the end of the window, `count` `Down` events each only move
/// the scroll offset, and none asks for a fetch.
pub proof fn lemma_scroll_within_window_fetch_free(s: CodeV, count: nat)
    requires
        s.status.attached,
        s.cursor is None,
        s.skip + s.height + count <= s.window.len(),
    ensures
        down_n(s, count) == (CodeV { skip: (s.skip + count) as nat, ..s }),
        forall|i: nat| i < count ==> #[trigger] code_step(down_n(s, i), Message::Down).1
            == Effect::Render(true),
    decreases count,
{
    if count == 0 {
        assert(down_n(s, 0) == s);
        assert(s == (CodeV { skip: (s.skip + 0) as nat, ..s }));
    } else {
        lemma_scroll_within_window_fetch_free(s, (count - 1) as nat);
        let prev = down_n(s, (count - 1) as nat);
        assert(prev == (CodeV { skip: (s.skip + count - 1) as nat, ..s }));
        assert(rows_below(prev) > 0);
        assert(code_step(prev, Message::Down).1 == Effect::Render(true));
        assert(down_n(s, count) == code_step(prev, Message::Down).0);
        assert forall|i: nat| i < count implies #[trigger] code_step(down_n(s, i), Message::Down).1
            == Effect::Render(true) by {
            if i < (count - 1) as nat {
            } else {
                assert(i == count - 1);
            }
        }
    }
}

/// Scrolling past the bottom edge asks for exactly one fetch, anchored at
/// the address where the materialized window ends, and leaves the state
/// untouched until the answer is applied.  `apply_after` then extends the
/// window by however many instructions came back — at least one, when the
/// fetch found any — and advances the scroll offset by one; an empty
/// answer leaves everything, the scroll offset included, unchanged.
pub proof fn lemma_scroll_past_bottom_fetches(s: CodeV)
    requires
        s.status.attached,
        s.cursor is None,
        rows_below(s) <= 0,
        s.window.len() > 0,
    ensures
        code_step(s, Message::Down) == (
            s,
            Effect::NeedAfter(
                Address { segment: s.addr.segment, offset: s.window.last().next },
                s.height as usize,
            ),
        ),
{
}

/// What a property change asks of the caller.
#[derive(Copy, Clone, PartialEq, Eq, Structural, Debug)]
pub enum ChangeEffect {
    /// The properties did not change; nothing to draw.
    Unchanged,
    /// Re-render with the state as it now is.
    Render,
    /// Fetch a fresh window forward from the given anchor with the given
    /// limit and install it with `install_window`.
    Refetch(Address, usize),
}

/// How many rows of the window are visible: the pane's height, or what is
/// left below the scroll offset if that is less.
pub open spec fn visible_count(s: CodeV) -> int {
    let avail = sat_sub(s.window.len() as int, s.skip as int);
    if (s.height as int) < avail {
        s.height as int
    } else {
        avail
    }
}

/// The search for the new instruction pointer among the visible rows, from
/// visible index `i` on: the first visible row whose instruction starts at
/// `off`.
pub open spec fn find_visible_from(s: CodeV, off: u32, i: nat) -> Option<nat>
    decreases visible_count(s) - i,
{
    if i >= visible_count(s) {
        None
    } else if s.window[s.skip + i as int].start == off {
        Some(i)
    } else {
        find_visible_from(s, off, (i + 1) as nat)
    }
}

/// The first visible row whose instruction starts at `off`, if any.
pub open spec fn find_visible(s: CodeV, off: u32) -> Option<nat> {
    find_visible_from(s, off, 0)
}

/// One property change of the viewport: the next state and what the caller
/// must do.  Unchanged properties are ignored; detaching only re-renders;
/// otherwise the new instruction pointer is looked for among the visible
/// rows, and either the scroll offset is re-centered over the window that
/// is already materialized, or a fresh fetch is asked for.
pub open spec fn change_step(s: CodeV, status: PaneStatus, addr: Address) -> (CodeV, ChangeEffect) {
    if s.status == status && s.addr == addr {
        (s, ChangeEffect::Unchanged)
    } else {
        let s2 = CodeV { status, addr, ..s };
        if !status.attached {
            (s2, ChangeEffect::Render)
        } else {
            match find_visible(s, addr.offset) {
                Some(i) => (
                    CodeV {
                        skip: (s.skip + sat_sub(
                            i as int,
                            sat_sub(s.height as int, BOTTOM_PADDING as int),
                        )) as nat,
                        cursor: None,
                        ..s2
                    },
                    ChangeEffect::Render,
                ),
                None => (s2, ChangeEffect::Refetch(addr, s.height as usize)),
            }
        }
    }
}

/// One row the pane draws.
pub struct Row {
    pub segment: u16,
    pub offset: u32,
    pub bytes: Vec<u8>,
    pub mnemonic: String,
    pub operands: String,
    /// The row holds the instruction the CPU stands at.
    pub is_current: bool,
    /// The row holds the selection cursor.
    pub is_selected: bool,
}

/// The mathematical image of one drawn row.
pub ghost struct RowV {
    pub segment: u16,
    pub offset: u32,
    pub bytes: Seq<u8>,
    pub mnemonic: Seq<char>,
    pub operands: Seq<char>,
    pub is_current: bool,
    pub is_selected: bool,
}

impl View for Row {
    type V = RowV;

    open spec fn view(&self) -> RowV {
        RowV {
            segment: self.segment,
            offset: self.offset,
            bytes: self.bytes@,
            mnemonic: self.mnemonic@,
            operands: self.operands@,
            is_current: self.is_current,
            is_selected: self.is_selected,
        }
    }
}

/// The row a viewport draws at visible index `i`.
pub open spec fn row_at(s: CodeV, i: int) -> RowV {
    let ins = s.window[s.skip + i];
    RowV {
        segment: s.addr.segment,
        offset: ins.start,
        bytes: ins.bytes,
        mnemonic: ins.mnemonic,
        operands: ins.operands,
        is_current: ins.start == s.addr.offset,
        is_selected: s.status.attached && s.cursor == Some(i as nat),
    }
}

/// Copy a byte vector.
fn clone_bytes(v: &Vec<u8>) -> (r: Vec<u8>)
    ensures
        r@ == v@,
{
    let r = v.clone();
    proof {
        assert(r@ =~= v@);
    }
    r
}

/// Copy a text.
fn clone_text(s: &String) -> (r: String)
    ensures
        r@ == s@,
{
    s.clone()
}

/// Executable saturating subtraction on `usize`.
fn saturating_sub_usize(a: usize, b: usize) -> (r: usize)
    ensures
        r as int == sat_sub(a as int, b as int),
{
    if a >= b {
        a - b
    } else {
        0
    }
}

} // verus!
