//! Tightly coupled memories of the first processor and the coprocessor
//! registers that place them.

use vstd::prelude::*;

verus! {

/// System-control coprocessor registers.
#[derive(Clone, Copy, Debug, PartialEq, Eq, Structural)]
pub struct Cp15Registers {
    pub control: u32,
    pub itcm_control: u32,
    pub dtcm_control: u32,
}

impl Default for Cp15Registers {
    fn default() -> (r: Self)
        ensures
            r == Cp15Registers::cleared(),
    {
        Cp15Registers { control: 0, itcm_control: 0, dtcm_control: 0 }
    }
}

impl Cp15Registers {
    pub open spec fn cleared() -> Cp15Registers {
        Cp15Registers { control: 0, itcm_control: 0, dtcm_control: 0 }
    }

    /// Instruction-memory enable: control bit 18.
    pub open spec fn itcm_on(self) -> bool {
        (self.control & 0x4_0000) != 0
    }

    /// Data-memory enable: control bit 16.
    pub open spec fn dtcm_on(self) -> bool {
        (self.control & 0x1_0000) != 0
    }

    /// Whether an address falls in the enabled instruction memory.
    pub open spec fn in_itcm(self, addr: u32) -> bool {
        self.itcm_on() && in_region(self.itcm_control, addr)
    }

    /// Whether an address falls in the enabled data memory.
    pub open spec fn in_dtcm(self, addr: u32) -> bool {
        self.dtcm_on() && in_region(self.dtcm_control, addr)
    }

    /// Window of the instruction memory.
    pub open spec fn itcm_window(self) -> TcmWindow {
        TcmWindow::derived(self.itcm_on(), self.itcm_control)
    }

    /// Window of the data memory.
    pub open spec fn dtcm_window(self) -> TcmWindow {
        TcmWindow::derived(self.dtcm_on(), self.dtcm_control)
    }
}

/// Base address in a region register: its upper twenty bits.
pub open spec fn region_base(region: u32) -> u32 {
    (region - region % 0x1000) as u32
}

/// Region size in a region register: 512 bytes times two to the power of bits 1
/// to 5. From 4 GiB on, the region is the whole address space.
pub open spec fn region_size(region: u32) -> nat {
    512 * vstd::arithmetic::power2::pow2(((region / 2) % 32) as nat)
}

/// Whether the region that starts at the base and spans the size, wrapping at
/// the top of the address space, holds `addr`.
pub open spec fn in_region(region: u32, addr: u32) -> bool {
    addr.wrapping_sub(region_base(region)) < region_size(region)
}

/// Base address held in a region register.
pub fn base_of(region: u32) -> (b: u32)
    ensures
        b == region_base(region),
{
    region - region % 0x1000
}

/// One memory window, flattened to base and size. A disabled memory has size
/// zero and so holds no address.
#[derive(Clone, Copy, Debug, PartialEq, Eq, Structural)]
pub struct TcmWindow {
    pub base: u32,
    pub size: u64,
}

impl TcmWindow {
    pub open spec fn empty() -> TcmWindow {
        TcmWindow { base: 0, size: 0 }
    }

    /// The window that an enable flag and a region register describe.
    pub open spec fn derived(on: bool, region: u32) -> TcmWindow {
        if on {
            TcmWindow { base: region_base(region), size: region_size(region) as u64 }
        } else {
            TcmWindow::empty()
        }
    }

    pub open spec fn holds(self, addr: u32) -> bool {
        addr.wrapping_sub(self.base) < self.size
    }

    pub fn region_size(region: u32) -> (size: u64)
        ensures
            size == region_size(region),
    {
        let n: u64 = ((region / 2) % 32) as u64;
        proof {
            lemma_size_fits(region);
            vstd::bits::lemma_u64_shl_is_mul(512, n);
        }
        512u64 << n
    }

    pub fn derive(on: bool, region: u32) -> (w: TcmWindow)
        ensures
            w == TcmWindow::derived(on, region),
    {
        if !on {
            return TcmWindow { base: 0, size: 0 };
        }
        proof {
            lemma_size_fits(region);
        }
        TcmWindow { base: base_of(region), size: TcmWindow::region_size(region) }
    }

    /// One subtraction and one comparison cover both bounds: an address below
    /// the base wraps to a large value.
    pub fn contains(self, addr: u32) -> (b: bool)
        ensures
            b == self.holds(addr),
    {
        (addr.wrapping_sub(self.base) as u64) < self.size
    }

    /// Whether the `n` bytes from an address on that the window holds stay in it.
    pub open spec fn spans(self, addr: u32, n: int) -> bool {
        addr.wrapping_sub(self.base) + n <= self.size
    }

    /// Whether the window begins among the `n` bytes from an address on.
    pub open spec fn begins(self, addr: u32, n: int) -> bool {
        self.size > 0 && self.base.wrapping_sub(addr) < n
    }

    pub fn spans_run(self, addr: u32, n: u32) -> (b: bool)
        ensures
            b == self.spans(addr, n as int),
    {
        addr.wrapping_sub(self.base) as u64 + n as u64 <= self.size
    }

    pub fn begins_run(self, addr: u32, n: u32) -> (b: bool)
        ensures
            b == self.begins(addr, n as int),
    {
        self.size > 0 && self.base.wrapping_sub(addr) < n
    }
}

/// A region is at least 512 bytes and at most 1 TiB.
pub proof fn lemma_size_fits(region: u32)
    ensures
        512 <= region_size(region) <= 0x100_0000_0000,
{
    let n = ((region / 2) % 32) as nat;
    vstd::arithmetic::power2::lemma2_to64();
    vstd::arithmetic::power2::lemma_pow2_pos(n);
    if n < 31 {
        vstd::arithmetic::power2::lemma_pow2_strictly_increases(n, 31);
    }
}

/// The coprocessor registers together with the windows derived from them. The
/// windows cannot go stale: `set` is the only writer and derives them anew.
pub struct TcmMap {
    regs: Cp15Registers,
    itcm: TcmWindow,
    dtcm: TcmWindow,
}

impl View for TcmMap {
    type V = Cp15Registers;

    closed spec fn view(&self) -> Cp15Registers {
        self.regs
    }
}

impl TcmMap {
    #[verifier::type_invariant]
    spec fn windows_follow_registers(self) -> bool {
        &&& self.itcm == self.regs.itcm_window()
        &&& self.dtcm == self.regs.dtcm_window()
    }

    pub fn new(regs: Cp15Registers) -> (r: Self)
        ensures
            r@ == regs,
    {
        TcmMap {
            regs,
            itcm: TcmWindow::derive((regs.control & 0x4_0000) != 0, regs.itcm_control),
            dtcm: TcmWindow::derive((regs.control & 0x1_0000) != 0, regs.dtcm_control),
        }
    }

    pub fn registers(&self) -> (r: Cp15Registers)
        ensures
            r == self@,
    {
        self.regs
    }

    pub fn set(&mut self, regs: Cp15Registers)
        ensures
            final(self)@ == regs,
    {
        *self = TcmMap::new(regs);
    }

    pub fn in_itcm(&self, addr: u32) -> (b: bool)
        ensures
            b == self@.in_itcm(addr),
    {
        proof {
            use_type_invariant(self);
            law_window_is_enable_and_range(self.regs, addr);
        }
        self.itcm.contains(addr)
    }

    pub fn in_dtcm(&self, addr: u32) -> (b: bool)
        ensures
            b == self@.in_dtcm(addr),
    {
        proof {
            use_type_invariant(self);
            law_window_is_enable_and_range(self.regs, addr);
        }
        self.dtcm.contains(addr)
    }

    /// The windows of the instruction and the data memory.
    pub fn windows(&self) -> (w: (TcmWindow, TcmWindow))
        ensures
            w.0 == self@.itcm_window(),
            w.1 == self@.dtcm_window(),
    {
        proof {
            use_type_invariant(self);
        }
        (self.itcm, self.dtcm)
    }
}

/// The derived window answers exactly the enable-and-range question.
pub proof fn law_window_is_enable_and_range(regs: Cp15Registers, addr: u32)
    ensures
        regs.itcm_window().holds(addr) == regs.in_itcm(addr),
        regs.dtcm_window().holds(addr) == regs.in_dtcm(addr),
{
    lemma_size_fits(regs.itcm_control);
    lemma_size_fits(regs.dtcm_control);
}

/// A size field of 23 or more covers the whole address space, wherever the base
/// is.
pub proof fn law_large_region_is_everything(region: u32, addr: u32)
    requires
        (region / 2) % 32 >= 23,
    ensures
        in_region(region, addr),
{
    let n = ((region / 2) % 32) as nat;
    vstd::arithmetic::power2::lemma2_to64();
    if n > 23 {
        vstd::arithmetic::power2::lemma_pow2_strictly_increases(23, n);
    }
}

/// A window that does not hold an address but holds one of the bytes behind it
/// begins there.
pub proof fn law_window_is_entered_at_its_base(w: TcmWindow, addr: u32, n: int, k: int)
    requires
        !w.holds(addr),
        0 <= k < n <= 0x1_0000_0000,
        !w.begins(addr, n),
    ensures
        !w.holds(addr.wrapping_add(k as u32)),
{
    let g = w.base.wrapping_sub(addr) as int;
    let d = addr.wrapping_sub(w.base) as int;
    assert(g == 0 || d == 0x1_0000_0000 - g);
    assert(k as u32 == k);
    if w.size > 0 {
        assert(g >= n);
        assert(addr.wrapping_add(k as u32).wrapping_sub(w.base) == d + k);
    }
}

} // verus!
