//! The register pane's state and the hex-diff logic behind its rendering:
//! a register value is drawn as fixed-width uppercase hex, and the digits
//! from the first changed one on are highlighted.

use vstd::prelude::*;

use crate::bus::Regs;

verus! {

/// The hex digit `k` nibbles up from the low end of `v`.
pub open spec fn nibble_of(v: u32, k: nat) -> u32 {
    (v >> (4 * k as u32)) & 0xF
}

/// The ASCII code of a hex digit, upper case.
pub open spec fn hex_ascii(d: u32) -> u8 {
    if d < 10 {
        (0x30 + d) as u8
    } else {
        (0x41 + (d - 10)) as u8
    }
}

/// The fixed-width uppercase hex rendering of `value`, most significant
/// digit first, as ASCII codes.
pub fn hex_digits(value: u32, width: usize) -> (r: Vec<u8>)
    requires
        width <= 8,
    ensures
        r@.len() == width,
        forall|i: int| 0 <= i < width
            ==> r@[i] == hex_ascii(nibble_of(value, (width - 1 - i) as nat)),
{
    let mut r: Vec<u8> = Vec::new();
    let mut i: usize = 0;
    while i < width
        invariant
            i <= width <= 8,
            r@.len() == i,
            forall|j: int| 0 <= j < i
                ==> r@[j] == hex_ascii(nibble_of(value, (width - 1 - j) as nat)),
        decreases width - i,
    {
        let k = (width - 1 - i) as u32;
        let d = (value >> (4 * k)) & 0xF;
        proof {
            assert(d == nibble_of(value, (width - 1 - i) as nat));
            assert(d <= 0xF) by (bit_vector)
                requires
                    d == (value >> (4 * k)) & 0xF,
            ;
        }
        let c = if d < 10 {
            (0x30 + d) as u8
        } else {
            (0x41 + (d - 10)) as u8
        };
        r.push(c);
        i = i + 1;
    }
    r
}

/// The first position at which two renderings differ, if any: the digits
/// from it on are drawn highlighted.
pub fn first_diff(a: &Vec<u8>, b: &Vec<u8>) -> (r: Option<usize>)
    ensures
        match r {
            Some(i) => {
                &&& i < a@.len()
                &&& i < b@.len()
                &&& a@[i as int] != b@[i as int]
                &&& forall|j: int| 0 <= j < i ==> a@[j] == b@[j]
            },
            None => forall|j: int|
                0 <= j < a@.len() && j < b@.len() ==> a@[j] == b@[j],
        },
{
    let n = if a.len() < b.len() {
        a.len()
    } else {
        b.len()
    };
    let mut i: usize = 0;
    while i < n
        invariant
            i <= n,
            n == if a@.len() < b@.len() {
                a@.len() as int
            } else {
                b@.len() as int
            },
            forall|j: int| 0 <= j < i ==> a@[j] == b@[j],
        decreases n - i,
    {
        if a[i] != b[i] {
            return Some(i);
        }
        i = i + 1;
    }
    None
}

/// The register pane's state: the snapshot it shows and the one before it,
/// for the diff highlighting.
pub struct Registers {
    regs: Regs,
    prev: Regs,
}

impl Registers {
    /// The snapshot shown.
    pub closed spec fn shown(&self) -> Regs {
        self.regs
    }

    /// The snapshot before it.
    pub closed spec fn previous(&self) -> Regs {
        self.prev
    }

    /// A fresh pane: nothing changed yet, so both snapshots are the given
    /// one.
    pub fn new(regs: Regs) -> (r: Registers)
        ensures
            r.shown() == regs,
            r.previous() == regs,
    {
        Registers { regs, prev: regs }
    }

    /// Read the snapshot shown.
    pub fn current(&self) -> (r: Regs)
        ensures
            r == self.shown(),
    {
        self.regs
    }

    /// Read the snapshot before it.
    pub fn before(&self) -> (r: Regs)
        ensures
            r == self.previous(),
    {
        self.prev
    }

    /// Take a new snapshot: re-render exactly when it differs from the
    /// shown one, which then becomes the previous snapshot.
    pub fn change(&mut self, regs: Regs) -> (r: bool)
        ensures
            r == (regs != old(self).shown()),
            r ==> final(self).shown() == regs && final(self).previous() == old(self).shown(),
            !r ==> *final(self) == *old(self),
    {
        if self.regs == regs {
            return false;
        }
        self.prev = self.regs;
        self.regs = regs;
        true
    }
}

} // verus!
