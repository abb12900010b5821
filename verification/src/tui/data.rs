//! The data pane's viewport: a materialized byte buffer shown as hex/ASCII
//! rows, a scroll offset and an optional selection cursor.
//!
//! Scrolling inside the materialized buffer is fetch-free; only scrolling
//! past its edges asks for a raw memory read, which the caller performs and
//! hands back in.

use vstd::prelude::*;

use crate::tui::PaneStatus;
use crate::x86::Address;

verus! {

/// Bytes shown per row.
pub const BYTES_PER_LINE: usize = 16;

/// A navigation event the pane receives.
#[derive(Copy, Clone, PartialEq, Eq, Structural, Debug)]
pub enum Message {
    Up,
    Down,
    Enter,
    Escape,
}

/// What handling an event asks of the caller: re-render (or not), or read
/// `length` bytes at the given address and feed them back through
/// `apply_before` / `apply_after`.
#[derive(Copy, Clone, PartialEq, Eq, Structural, Debug)]
pub enum Effect {
    /// Nothing to read; re-render exactly when the payload is true.
    Render(bool),
    /// Read the given span, which ends where the buffer begins, and hand it
    /// to `apply_before`.
    NeedBefore(Address, u32),
    /// Read the given span, which begins where the buffer ends, and hand it
    /// to `apply_after`.
    NeedAfter(Address, u32),
}

/// What a property change asks of the caller.
#[derive(Copy, Clone, PartialEq, Eq, Structural, Debug)]
pub enum ChangeEffect {
    /// The properties did not change; nothing to draw.
    Unchanged,
    /// Re-render with the state as it now is.
    Render,
    /// Read the given span afresh and install it with `install`.
    Refetch(Address, u32),
}

/// The mathematical image of a data viewport.
pub ghost struct DataV {
    pub status: PaneStatus,
    pub props_addr: Address,
    pub addr: Address,
    pub height: nat,
    pub bytes: Seq<u8>,
    pub skip: nat,
    pub cursor: Option<nat>,
}

/// Saturating subtraction over the mathematical integers.
pub open spec fn sat_sub(a: int, b: int) -> int {
    if a >= b {
        a - b
    } else {
        0
    }
}

/// Saturating 32-bit cap over the mathematical integers.
pub open spec fn sat_u32(a: int) -> int {
    if a <= u32::MAX {
        a
    } else {
        u32::MAX as int
    }
}

/// How many bytes fill the pane: one row of bytes per visible line, capped
/// at the 32-bit range a read can name.
pub open spec fn bytes_fill(height: nat) -> int {
    sat_u32(height * (BYTES_PER_LINE as int))
}

/// How many materialized rows lie below the visible region: while this is
/// positive, scrolling down only moves `skip`.
pub open spec fn rows_below(s: DataV) -> int {
    sat_sub(
        sat_sub(s.bytes.len() as int / (BYTES_PER_LINE as int), s.skip as int),
        match s.cursor {
            Some(p) => p as int,
            None => s.height as int,
        },
    )
}

/// One navigation step of the data pane: the next state and what the
/// caller must do, in the same priority order as the code pane.
pub open spec fn data_step(s: DataV, msg: Message) -> (DataV, Effect) {
    if !s.status.attached {
        (s, Effect::Render(false))
    } else {
        match msg {
            Message::Up => {
                if s.cursor is Some && s.cursor->0 > 0 {
                    (DataV { cursor: Some((s.cursor->0 - 1) as nat), ..s }, Effect::Render(true))
                } else if s.skip > 0 {
                    (DataV { skip: (s.skip - 1) as nat, ..s }, Effect::Render(true))
                } else {
                    let limit = bytes_fill(s.height);
                    let start = sat_sub(s.addr.offset as int, limit);
                    if start < s.addr.offset {
                        (
                            s,
                            Effect::NeedBefore(
                                Address { segment: s.addr.segment, offset: start as u32 },
                                limit as u32,
                            ),
                        )
                    } else {
                        (s, Effect::Render(false))
                    }
                }
            },
            Message::Down => {
                if s.cursor is Some && s.cursor->0 + 1 < s.height {
                    (DataV { cursor: Some((s.cursor->0 + 1) as nat), ..s }, Effect::Render(true))
                } else if rows_below(s) > 0 {
                    (DataV { skip: (s.skip + 1) as nat, ..s }, Effect::Render(true))
                } else {
                    (
                        s,
                        Effect::NeedAfter(
                            Address {
                                segment: s.addr.segment,
                                offset: sat_u32(s.addr.offset + s.bytes.len()) as u32,
                            },
                            bytes_fill(s.height) as u32,
                        ),
                    )
                }
            },
            Message::Enter => {
                if s.cursor is None {
                    (DataV { cursor: Some(0), ..s }, Effect::Render(true))
                } else {
                    (s, Effect::Render(false))
                }
            },
            Message::Escape => {
                if s.cursor is Some {
                    (DataV { cursor: None, ..s }, Effect::Render(true))
                } else {
                    (s, Effect::Render(false))
                }
            },
        }
    }
}

/// One property change of the data pane: unchanged properties are ignored;
/// detaching only re-renders; otherwise the pane reloads what is on screen,
/// rebased at the row the scroll offset stands on.
pub open spec fn data_change_step(s: DataV, status: PaneStatus, addr: Address) -> (
    DataV,
    ChangeEffect,
) {
    if s.status == status && s.props_addr == addr {
        (s, ChangeEffect::Unchanged)
    } else {
        let stored = PaneStatus { reload: false, ..status };
        let s2 = DataV { status: stored, props_addr: addr, ..s };
        if !status.attached {
            (s2, ChangeEffect::Render)
        } else {
            let offset = sat_u32(s.addr.offset + s.skip * (BYTES_PER_LINE as int));
            (
                s2,
                ChangeEffect::Refetch(
                    Address { segment: s.addr.segment, offset: offset as u32 },
                    bytes_fill(s.height) as u32,
                ),
            )
        }
    }
}

/// The data pane's state.
pub struct Data {
    status: PaneStatus,
    props_addr: Address,
    addr: Address,
    height: usize,
    data: Vec<u8>,
    skip: usize,
    pos: Option<usize>,
}

impl Data {
    /// The mathematical image of this pane.
    pub closed spec fn v(&self) -> DataV {
        DataV {
            status: self.status,
            props_addr: self.props_addr,
            addr: self.addr,
            height: self.height as nat,
            bytes: self.data@,
            skip: self.skip as nat,
            cursor: match self.pos {
                Some(p) => Some(p as nat),
                None => None,
            },
        }
    }

    /// The pane's invariant: the scroll offset stays inside the
    /// materialized rows and the cursor inside the visible region.
    pub open spec fn wf(&self) -> bool {
        &&& self.v().skip <= self.v().bytes.len()
        &&& (self.v().cursor matches Some(p) ==> p == 0 || p < self.v().height)
    }

    /// A fresh pane: no buffer, no scroll, no selection.  The caller reads
    /// the first screenful (when attached) and installs it.
    pub fn new(status: PaneStatus, addr: Address, height: usize) -> (r: Data)
        ensures
            r.wf(),
            r.v() == (DataV {
                status,
                props_addr: addr,
                addr,
                height: height as nat,
                bytes: Seq::<u8>::empty(),
                skip: 0,
                cursor: None,
            }),
    {
        let r = Data {
            status,
            props_addr: addr,
            addr,
            height,
            data: Vec::new(),
            skip: 0,
            pos: None,
        };
        proof {
            assert(r.v().bytes =~= Seq::<u8>::empty());
        }
        r
    }

    /// Replace the buffer wholesale, rebasing the pane at `offset`.
    pub fn install(&mut self, offset: u32, d: Vec<u8>)
        requires
            old(self).wf(),
        ensures
            final(self).wf(),
            final(self).v() == (DataV {
                addr: Address { segment: old(self).v().addr.segment, offset },
                bytes: d@,
                skip: 0,
                cursor: None,
                ..old(self).v()
            }),
    {
        self.addr = Address { segment: self.addr.segment, offset };
        self.data = d;
        self.skip = 0;
        self.pos = None;
    }

    /// Handle one navigation event, as `data_step` says.
    pub fn update(&mut self, msg: Message) -> (r: Effect)
        requires
            old(self).wf(),
        ensures
            final(self).wf(),
            (final(self).v(), r) == data_step(old(self).v(), msg),
    {
        if !self.status.attached {
            return Effect::Render(false);
        }
        match msg {
            Message::Up => {
                match self.pos {
                    Some(p) if p > 0 => {
                        self.pos = Some(p - 1);
                        Effect::Render(true)
                    },
                    _ => {
                        if self.skip > 0 {
                            self.skip = self.skip - 1;
                            Effect::Render(true)
                        } else {
                            let limit = bytes_on_screen(self.height);
                            let start = self.addr.offset.saturating_sub(limit);
                            if start < self.addr.offset {
                                Effect::NeedBefore(
                                    Address { segment: self.addr.segment, offset: start },
                                    limit,
                                )
                            } else {
                                Effect::Render(false)
                            }
                        }
                    },
                }
            },
            Message::Down => {
                let visible = match self.pos {
                    Some(p) => p,
                    None => self.height,
                };
                match self.pos {
                    Some(p) if p + 1 < self.height => {
                        self.pos = Some(p + 1);
                        Effect::Render(true)
                    },
                    _ => {
                        let below = saturating_sub_usize(
                            saturating_sub_usize(self.data.len() / BYTES_PER_LINE, self.skip),
                            visible,
                        );
                        if below > 0 {
                            self.skip = self.skip + 1;
                            Effect::Render(true)
                        } else {
                            let len32 = if self.data.len() >= 0xFFFF_FFFF {
                                u32::MAX
                            } else {
                                self.data.len() as u32
                            };
                            let start = self.addr.offset.saturating_add(len32);
                            proof {
                                assert(start as int == sat_u32(
                                    self.v().addr.offset + self.v().bytes.len(),
                                ));
                            }
                            Effect::NeedAfter(
                                Address { segment: self.addr.segment, offset: start },
                                bytes_on_screen(self.height),
                            )
                        }
                    },
                }
            },
            Message::Enter => {
                if self.pos.is_none() {
                    self.pos = Some(0);
                    Effect::Render(true)
                } else {
                    Effect::Render(false)
                }
            },
            Message::Escape => {
                if self.pos.is_some() {
                    self.pos = None;
                    Effect::Render(true)
                } else {
                    Effect::Render(false)
                }
            },
        }
    }

    /// Prepend a freshly read span that ends where the buffer began: the
    /// new rows become the scroll offset, and the pane is rebased at
    /// `start`.  An empty answer changes nothing.
    pub fn apply_before(&mut self, start: u32, d: Vec<u8>) -> (r: bool)
        requires
            old(self).wf(),
        ensures
            final(self).wf(),
            d@.len() == 0 ==> final(self).v() == old(self).v() && r == false,
            d@.len() > 0 ==> final(self).v() == (DataV {
                addr: Address { segment: old(self).v().addr.segment, offset: start },
                bytes: d@ + old(self).v().bytes,
                skip: sat_sub(d@.len() as int / (BYTES_PER_LINE as int), 1) as nat,
                ..old(self).v()
            }) && r == true,
    {
        if d.len() == 0 {
            return false;
        }
        let mut d = d;
        self.skip = saturating_sub_usize(d.len() / BYTES_PER_LINE, 1);
        d.append(&mut self.data);
        self.data = d;
        self.addr = Address { segment: self.addr.segment, offset: start };
        true
    }

    /// Append a freshly read span that begins where the buffer ended, and
    /// scroll one row down into it.  An empty answer changes nothing.
    pub fn apply_after(&mut self, d: Vec<u8>) -> (r: bool)
        requires
            old(self).wf(),
        ensures
            final(self).wf(),
            d@.len() == 0 ==> final(self).v() == old(self).v() && r == false,
            d@.len() > 0 ==> final(self).v() == (DataV {
                bytes: old(self).v().bytes + d@,
                skip: old(self).v().skip + 1,
                ..old(self).v()
            }) && r == true,
    {
        if d.len() == 0 {
            return false;
        }
        let mut d = d;
        self.data.append(&mut d);
        // the old scroll offset sat inside the old buffer, so it is
        // strictly below the grown length: the step never saturates
        let n = self.data.len();
        if self.skip < n {
            self.skip = self.skip + 1;
        }
        true
    }

    /// React to new pane properties, as `data_change_step` says.
    pub fn change(&mut self, status: PaneStatus, addr: Address) -> (r: ChangeEffect)
        requires
            old(self).wf(),
        ensures
            final(self).wf(),
            (final(self).v(), r) == data_change_step(old(self).v(), status, addr),
    {
        if self.status == status && self.props_addr == addr {
            return ChangeEffect::Unchanged;
        }
        let attached = status.attached;
        self.status = PaneStatus { reload: false, ..status };
        self.props_addr = addr;
        if !attached {
            return ChangeEffect::Render;
        }
        let rows16 = if self.skip >= 0x1000_0000 {
            u32::MAX
        } else {
            (self.skip * BYTES_PER_LINE) as u32
        };
        let offset = self.addr.offset.saturating_add(rows16);
        proof {
            assert(offset as int == sat_u32(
                old(self).v().addr.offset + old(self).v().skip * (BYTES_PER_LINE as int),
            ));
        }
        ChangeEffect::Refetch(
            Address { segment: self.addr.segment, offset },
            bytes_on_screen(self.height),
        )
    }
}

/// One row the data pane draws: up to one line's worth of bytes, with the
/// address of its first byte.
pub struct DataRow {
    pub segment: u16,
    pub offset: u32,
    pub bytes: Vec<u8>,
    /// The row holds the selection cursor.
    pub is_selected: bool,
}

/// The mathematical image of one drawn data row.
pub ghost struct DataRowV {
    pub segment: u16,
    pub offset: u32,
    pub bytes: Seq<u8>,
    pub is_selected: bool,
}

impl View for DataRow {
    type V = DataRowV;

    open spec fn view(&self) -> DataRowV {
        DataRowV {
            segment: self.segment,
            offset: self.offset,
            bytes: self.bytes@,
            is_selected: self.is_selected,
        }
    }
}

/// How many rows, the last possibly short, a buffer of `len` bytes fills.
pub open spec fn data_rows(len: int) -> int {
    len / (BYTES_PER_LINE as int) + if len % (BYTES_PER_LINE as int) != 0 {
        1int
    } else {
        0int
    }
}

/// How many rows the pane draws: the pane's height, or however many rows
/// of the buffer, the last possibly short, lie at or below the scroll
/// offset.
pub open spec fn data_visible_count(s: DataV) -> int {
    let rows = data_rows(s.bytes.len() as int);
    let avail = sat_sub(rows, s.skip as int);
    if (s.height as int) < avail {
        s.height as int
    } else {
        avail
    }
}

/// The row a data pane draws at visible index `i`.
pub open spec fn data_row_at(s: DataV, i: int) -> DataRowV {
    let from = (s.skip + i) * (BYTES_PER_LINE as int);
    let until = if from + BYTES_PER_LINE <= s.bytes.len() {
        from + (BYTES_PER_LINE as int)
    } else {
        s.bytes.len() as int
    };
    DataRowV {
        segment: s.addr.segment,
        offset: sat_u32(s.addr.offset + from) as u32,
        bytes: s.bytes.subrange(from, until),
        is_selected: s.cursor == Some(i as nat),
    }
}

impl Data {
    /// The rows the pane should draw: the visible lines of the buffer,
    /// each carrying the address of its first byte.
    pub fn render(&self) -> (r: Vec<DataRow>)
        requires
            self.wf(),
        ensures
            r@.len() == data_visible_count(self.v()),
            forall|i: int| 0 <= i < r@.len() ==> #[trigger] r@[i]@ == data_row_at(self.v(), i),
    {
        let total = self.data.len();
        let rows = total / BYTES_PER_LINE + if total % BYTES_PER_LINE != 0 {
            1
        } else {
            0
        };
        let avail = saturating_sub_usize(rows, self.skip);
        let count = if self.height < avail {
            self.height
        } else {
            avail
        };
        let mut out: Vec<DataRow> = Vec::new();
        let mut i: usize = 0;
        while i < count
            invariant
                i <= count,
                count == data_visible_count(self.v()),
                total == self.v().bytes.len(),
                rows == data_rows(total as int),
                count > 0 ==> self.v().skip + count <= rows,
                self.wf(),
                out@.len() == i,
                forall|j: int| 0 <= j < i ==> #[trigger] out@[j]@ == data_row_at(self.v(), j),
            decreases count - i,
        {
            proof {
                assert(self.v().skip + i < rows);
                assert((self.v().skip + i as int) * (BYTES_PER_LINE as int)
                    <= (rows - 1) * (BYTES_PER_LINE as int)) by (nonlinear_arith)
                    requires
                        self.v().skip + i < rows,
                ;
                assert((rows - 1) * (BYTES_PER_LINE as int) <= total);
            }
            let from = (self.skip + i) * BYTES_PER_LINE;
            let until = if total - from >= BYTES_PER_LINE {
                from + BYTES_PER_LINE
            } else {
                total
            };
            let mut chunk: Vec<u8> = Vec::new();
            let mut j: usize = from;
            proof {
                assert(chunk@ =~= self.v().bytes.subrange(from as int, from as int));
            }
            while j < until
                invariant
                    from <= j <= until <= self.v().bytes.len(),
                    self.v().bytes.len() <= usize::MAX,
                    chunk@ == self.v().bytes.subrange(from as int, j as int),
                decreases until - j,
            {
                let b = self.data[j];
                chunk.push(b);
                proof {
                    assert(chunk@ =~= self.v().bytes.subrange(from as int, j + 1));
                }
                j = j + 1;
            }
            let from32 = if from >= 0xFFFF_FFFF {
                u32::MAX
            } else {
                from as u32
            };
            let row = DataRow {
                segment: self.addr.segment,
                offset: self.addr.offset.saturating_add(from32),
                bytes: chunk,
                is_selected: match self.pos {
                    Some(p) => p == i,
                    None => false,
                },
            };
            proof {
                assert(row@ == data_row_at(self.v(), i as int));
            }
            out.push(row);
            i = i + 1;
        }
        out
    }
}

/// The character the ASCII column shows for one byte: the byte itself
/// where it is printable, a dot everywhere else.
pub fn ascii_cell(b: u8) -> (c: char)
    ensures
        c == if 0x20 <= b <= 0x7E {
            b as char
        } else {
            '.'
        },
{
    if 0x20 <= b && b <= 0x7E {
        b as char
    } else {
        '.'
    }
}

/// How many bytes fill the pane, as an executable read length.
pub fn bytes_on_screen(height: usize) -> (r: u32)
    ensures
        r as int == bytes_fill(height as nat),
{
    if height >= 0x1000_0000 {
        u32::MAX
    } else {
        (height * BYTES_PER_LINE) as u32
    }
}

/// Executable saturating subtraction on `usize`.
fn saturating_sub_usize(a: usize, b: usize) -> (r: usize)
    ensures
        r as int == sat_sub(a as int, b as int),
{
    if a >= b {
        a - b
    } else {
        0
    }
}

} // verus!
