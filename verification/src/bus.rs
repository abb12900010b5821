//! The register snapshot the remote CPU service reports.
//!
//! The request/response channel itself (connection, proxies, wire format)
//! lives outside the library; the library only works on the snapshot.

use vstd::prelude::*;

verus! {

/// One snapshot of the virtual CPU's registers and flags.
#[derive(Copy, Clone, Default, PartialEq, Eq, Structural, Debug)]
pub struct Regs {
    pub eax: u32,
    pub ebx: u32,
    pub ecx: u32,
    pub edx: u32,
    pub esi: u32,
    pub edi: u32,
    pub ebp: u32,
    pub esp: u32,
    pub eip: u32,
    pub cs: u16,
    pub ds: u16,
    pub es: u16,
    pub fs: u16,
    pub gs: u16,
    pub ss: u16,
    pub cf: bool,
    pub pf: bool,
    pub af: bool,
    pub zf: bool,
    pub sf: bool,
    pub tf: bool,
    pub intf: bool,
    pub df: bool,
    pub of: bool,
    pub iopl: u8,
    pub nt: bool,
    pub vm: bool,
    pub ac: bool,
    pub id: bool,
}

impl Regs {
    /// The all-clear snapshot.
    pub open spec fn zeroed() -> Regs {
        Regs {
            eax: 0, ebx: 0, ecx: 0, edx: 0, esi: 0, edi: 0, ebp: 0, esp: 0, eip: 0,
            cs: 0, ds: 0, es: 0, fs: 0, gs: 0, ss: 0,
            cf: false, pf: false, af: false, zf: false, sf: false, tf: false,
            intf: false, df: false, of: false, iopl: 0,
            nt: false, vm: false, ac: false, id: false,
        }
    }

    /// Build the all-clear snapshot.
    pub fn new_zeroed() -> (r: Regs)
        ensures
            r == Regs::zeroed(),
    {
        Regs {
            eax: 0, ebx: 0, ecx: 0, edx: 0, esi: 0, edi: 0, ebp: 0, esp: 0, eip: 0,
            cs: 0, ds: 0, es: 0, fs: 0, gs: 0, ss: 0,
            cf: false, pf: false, af: false, zf: false, sf: false, tf: false,
            intf: false, df: false, of: false, iopl: 0,
            nt: false, vm: false, ac: false, id: false,
        }
    }
}

} // verus!
