//! Video memory: nine banks, each mapped into one of several address spaces by
//! its control register.

use vstd::prelude::*;
use crate::bytes;

pub mod laws;

verus! {

/// Size of bank `i` in bytes.
pub open spec fn bank_size(i: int) -> nat {
    if i < 4 {
        0x2_0000
    } else if i == 4 {
        0x1_0000
    } else if i == 7 {
        0x8000
    } else {
        0x4000
    }
}

/// Mathematical state of one bank.
pub struct BankModel {
    pub data: Seq<u8>,
    pub control: u8,
}

impl BankModel {
    /// Whether the bank is switched on and mapped to target `mst`.
    pub open spec fn mapped(self, mst: int) -> bool {
        self.control >= 0x80 && self.control as int % 8 == mst
    }

    /// Offset field of the control register.
    pub open spec fn ofs(self) -> int {
        (self.control as int / 8) % 4
    }

    /// Base of a 128 KiB window selected by the offset field.
    pub open spec fn wide_base(self) -> int {
        self.ofs() * 0x2_0000
    }

    /// Base of a 16 KiB window: the two offset bits select 16 KiB and 64 KiB
    /// steps independently.
    pub open spec fn narrow_base(self) -> int {
        (self.ofs() % 2) * 0x4000 + (self.ofs() / 2) * 0x1_0000
    }

    /// Index in the bank of an address in the second processor's window. The
    /// base follows the low offset bit.
    pub open spec fn arm7_slot(self, offset: u32) -> Option<int> {
        let base = ((self.control as int / 8) % 2) * 0x2_0000;
        if self.mapped(2) && base <= offset < base + 0x2_0000 && offset - base < self.data.len() {
            Some(offset - base)
        } else {
            None
        }
    }
}

/// Mathematical state of video memory.
pub struct VramModel {
    pub banks: Seq<BankModel>,
    pub dropped_writes: u64,
    pub dropped_by_target: Seq<u64>,
}

/// First of two answers.
pub open spec fn first_slot(a: Option<(int, int)>, b: Option<(int, int)>) -> Option<(int, int)> {
    if a is Some {
        a
    } else {
        b
    }
}

impl VramModel {
    pub open spec fn wf(self) -> bool {
        &&& self.banks.len() == 9
        &&& forall|i: int| 0 <= i < 9 ==> #[trigger] self.banks[i].data.len() == bank_size(i)
        &&& self.dropped_by_target.len() == 8
    }

    pub open spec fn fresh() -> VramModel {
        VramModel {
            banks: Seq::new(
                9,
                |i: int| BankModel { data: Seq::new(bank_size(i), |k: int| 0u8), control: 0 },
            ),
            dropped_writes: 0,
            dropped_by_target: Seq::new(8, |i: int| 0u64),
        }
    }

    /// Slot in bank `i` of `offset`, where the bank is mapped to `mst` with a
    /// window of `size` bytes at `base`.
    pub open spec fn window(self, i: int, mst: int, base: int, size: int, offset: u32) -> Option<
        (int, int),
    > {
        if self.banks[i].mapped(mst) && base <= offset < base + size {
            Some((i, offset - base))
        } else {
            None
        }
    }

    pub open spec fn wide(self, i: int, mst: int, offset: u32) -> Option<(int, int)> {
        self.window(i, mst, self.banks[i].wide_base(), 0x2_0000, offset)
    }

    pub open spec fn narrow(self, i: int, mst: int, offset: u32) -> Option<(int, int)> {
        self.window(i, mst, self.banks[i].narrow_base(), 0x4000, offset)
    }

    /// Banks in order at fixed places in the processor's own window.
    pub open spec fn lcdc_slot(self, offset: u32) -> Option<(int, int)> {
        if offset < 0x8_0000 {
            let i = offset as int / 0x2_0000;
            self.window(i, 0, i * 0x2_0000, 0x2_0000, offset)
        } else if offset < 0x9_0000 {
            self.window(4, 0, 0x8_0000, 0x1_0000, offset)
        } else if offset < 0x9_4000 {
            self.window(5, 0, 0x9_0000, 0x4000, offset)
        } else if offset < 0x9_8000 {
            self.window(6, 0, 0x9_4000, 0x4000, offset)
        } else if offset < 0xA_0000 {
            self.window(7, 0, 0x9_8000, 0x8000, offset)
        } else {
            self.window(8, 0, 0xA_0000, 0x4000, offset)
        }
    }

    /// Main background: banks A-D wide, E fixed, F and G narrow, all with
    /// target 1; the first match wins.
    pub open spec fn bg_a_slot(self, offset: u32) -> Option<(int, int)> {
        first_slot(
            first_slot(
                first_slot(self.wide(0, 1, offset), self.wide(1, 1, offset)),
                first_slot(self.wide(2, 1, offset), self.wide(3, 1, offset)),
            ),
            first_slot(
                self.window(4, 1, 0, 0x1_0000, offset),
                first_slot(self.narrow(5, 1, offset), self.narrow(6, 1, offset)),
            ),
        )
    }

    /// Main sprites: banks A, B wide, E fixed, F and G narrow, with target 2.
    pub open spec fn obj_a_slot(self, offset: u32) -> Option<(int, int)> {
        first_slot(
            first_slot(self.wide(0, 2, offset), self.wide(1, 2, offset)),
            first_slot(
                self.window(4, 2, 0, 0x1_0000, offset),
                first_slot(self.narrow(5, 2, offset), self.narrow(6, 2, offset)),
            ),
        )
    }

    /// Sub background: C with target 4, H with target 1, I with target 1 at
    /// 0x8000.
    pub open spec fn bg_b_slot(self, offset: u32) -> Option<(int, int)> {
        first_slot(
            self.window(2, 4, 0, 0x2_0000, offset),
            first_slot(
                self.window(7, 1, 0, 0x8000, offset),
                self.window(8, 1, 0x8000, 0x4000, offset),
            ),
        )
    }

    /// Sub sprites: D with target 4, I with target 2.
    pub open spec fn obj_b_slot(self, offset: u32) -> Option<(int, int)> {
        first_slot(
            self.window(3, 4, 0, 0x2_0000, offset),
            self.window(8, 2, 0, 0x4000, offset),
        )
    }

    /// Texture images: banks A-D with target 3.
    pub open spec fn tex_image_slot(self, offset: u32) -> Option<(int, int)> {
        first_slot(
            first_slot(self.wide(0, 3, offset), self.wide(1, 3, offset)),
            first_slot(self.wide(2, 3, offset), self.wide(3, 3, offset)),
        )
    }

    /// Texture palettes: E fixed, F and G narrow, with target 3.
    pub open spec fn tex_pal_slot(self, offset: u32) -> Option<(int, int)> {
        first_slot(
            self.window(4, 3, 0, 0x1_0000, offset),
            first_slot(self.narrow(5, 3, offset), self.narrow(6, 3, offset)),
        )
    }

    /// Byte at a slot, zero where nothing is mapped.
    pub open spec fn byte_at(self, slot: Option<(int, int)>) -> u8 {
        match slot {
            Some((i, o)) => self.banks[i].data[o],
            None => 0,
        }
    }

    /// State with one byte of bank `i` replaced.
    pub open spec fn with_byte(self, i: int, o: int, val: u8) -> VramModel {
        VramModel {
            banks: self.banks.update(
                i,
                BankModel { data: self.banks[i].data.update(o, val), ..self.banks[i] },
            ),
            ..self
        }
    }

    /// State with the byte at a slot replaced; nothing changes where nothing
    /// is mapped.
    pub open spec fn put(self, slot: Option<(int, int)>, val: u8) -> VramModel {
        match slot {
            Some((i, o)) => self.with_byte(i, o, val),
            None => self,
        }
    }

    /// State with the control register of bank `i` replaced.
    pub open spec fn with_control(self, i: int, val: u8) -> VramModel {
        VramModel {
            banks: self.banks.update(i, BankModel { control: val, ..self.banks[i] }),
            ..self
        }
    }

    /// Whether bank `i` answers `offset` of target `mst` in the flat decoding,
    /// where the offset field steps by the bank's own size.
    pub open spec fn flat_hit(self, i: int, mst: u8, offset: u32) -> bool {
        let b = self.banks[i];
        let base = b.ofs() * b.data.len();
        b.mapped(mst as int) && base <= offset < base + b.data.len()
    }

    pub open spec fn flat_index(self, i: int, offset: u32) -> int {
        offset - self.banks[i].ofs() * self.banks[i].data.len()
    }

    /// Byte that the first answering bank among banks `from..9` holds.
    pub open spec fn flat_read(self, mst: u8, offset: u32, from: int) -> u8
        decreases 9 - from,
    {
        if from >= 9 {
            0
        } else if self.flat_hit(from, mst, offset) {
            self.banks[from].data[self.flat_index(from, offset)]
        } else {
            self.flat_read(mst, offset, from + 1)
        }
    }

    /// Banks after a flat write: every answering bank stores the byte.
    pub open spec fn flat_written(self, mst: u8, offset: u32, val: u8) -> Seq<BankModel> {
        Seq::new(
            9,
            |i: int|
                if self.flat_hit(i, mst, offset) {
                    BankModel {
                        data: self.banks[i].data.update(self.flat_index(i, offset), val),
                        ..self.banks[i]
                    }
                } else {
                    self.banks[i]
                },
        )
    }

    /// State after a flat write; one that reaches no bank is counted.
    pub open spec fn flat_put(self, mst: u8, offset: u32, val: u8) -> VramModel {
        let banks = self.flat_written(mst, offset, val);
        if exists|i: int| 0 <= i < 9 && self.flat_hit(i, mst, offset) {
            VramModel { banks, ..self }
        } else {
            VramModel {
                banks,
                dropped_writes: self.dropped_writes.wrapping_add(1),
                dropped_by_target: if mst < 8 {
                    self.dropped_by_target.update(
                        mst as int,
                        self.dropped_by_target[mst as int].wrapping_add(1),
                    )
                } else {
                    self.dropped_by_target
                },
            }
        }
    }

    /// Byte the second processor reads in its window: bank C answers before
    /// bank D.
    pub open spec fn arm7_slot(self, offset: u32) -> Option<(int, int)> {
        match self.banks[2].arm7_slot(offset) {
            Some(o) => Some((2int, o)),
            None => match self.banks[3].arm7_slot(offset) {
                Some(o) => Some((3int, o)),
                None => None,
            },
        }
    }
}

/// One bank.
#[derive(Clone, Debug)]
pub struct VramBank {
    pub data: Vec<u8>,
    pub control: u8,
}

impl View for VramBank {
    type V = BankModel;

    open spec fn view(&self) -> BankModel {
        BankModel { data: self.data@, control: self.control }
    }
}

impl VramBank {
    fn blank(size: usize) -> (b: VramBank)
        ensures
            b@ == (BankModel { data: Seq::new(size as nat, |k: int| 0u8), control: 0 }),
    {
        let b = VramBank { data: vec![0u8; size], control: 0 };
        assert(b@.data =~= Seq::new(size as nat, |k: int| 0u8));
        b
    }

    /// Index inside this bank for an address in the second processor's window,
    /// none when the bank is not mapped there.
    pub fn arm7_window_slot(&self, offset: u32) -> (r: Option<usize>)
        ensures
            r is Some <==> self@.arm7_slot(offset) is Some,
            r is Some ==> r->0 == self@.arm7_slot(offset)->0 && r->0 < self@.data.len(),
    {
        if self.control < 0x80 || self.control % 8 != 2 {
            return None;
        }
        let base: u32 = ((self.control / 8) % 2) as u32 * 0x2_0000;
        if offset >= base && offset - base < 0x2_0000 && ((offset - base) as usize)
            < self.data.len() {
            Some((offset - base) as usize)
        } else {
            None
        }
    }
}

/// The nine banks, A to I.
#[derive(Clone, Debug)]
pub struct VramManager {
    pub banks: [VramBank; 9],
    /// Flat writes that reached no bank, in total and per target.
    pub dropped_writes: u64,
    pub dropped_by_target: [u64; 8],
}

impl View for VramManager {
    type V = VramModel;

    open spec fn view(&self) -> VramModel {
        VramModel {
            banks: Seq::new(9, |i: int| self.banks@[i]@),
            dropped_writes: self.dropped_writes,
            dropped_by_target: self.dropped_by_target@,
        }
    }
}

/// Whether an optional executable slot is the one a model names.
pub open spec fn slot_is(r: Option<(usize, usize)>, s: Option<(int, int)>) -> bool {
    match r {
        Some((i, o)) => s == Some((i as int, o as int)),
        None => s is None,
    }
}

impl VramManager {
    pub fn new() -> (r: Self)
        ensures
            r@ == VramModel::fresh(),
            r@.wf(),
    {
        let r = VramManager {
            banks: [
                VramBank::blank(128 * 1024),
                VramBank::blank(128 * 1024),
                VramBank::blank(128 * 1024),
                VramBank::blank(128 * 1024),
                VramBank::blank(64 * 1024),
                VramBank::blank(16 * 1024),
                VramBank::blank(16 * 1024),
                VramBank::blank(32 * 1024),
                VramBank::blank(16 * 1024),
            ],
            dropped_writes: 0,
            dropped_by_target: [0u64; 8],
        };
        assert(r@.banks =~= VramModel::fresh().banks);
        assert(r@.dropped_by_target =~= VramModel::fresh().dropped_by_target);
        r
    }

    fn window(&self, i: usize, mst: u8, base: u32, size: u32, offset: u32) -> (r: Option<
        (usize, usize),
    >)
        requires
            i < 9,
            base + size <= u32::MAX,
        ensures
            slot_is(r, self@.window(i as int, mst as int, base as int, size as int, offset)),
    {
        if self.banks[i].control >= 0x80 && self.banks[i].control % 8 == mst && offset >= base
            && offset < base + size {
            Some((i, (offset - base) as usize))
        } else {
            None
        }
    }

    fn wide(&self, i: usize, mst: u8, offset: u32) -> (r: Option<(usize, usize)>)
        requires
            i < 9,
        ensures
            slot_is(r, self@.wide(i as int, mst as int, offset)),
    {
        let base: u32 = ((self.banks[i].control / 8) % 4) as u32 * 0x2_0000;
        self.window(i, mst, base, 0x2_0000, offset)
    }

    fn narrow(&self, i: usize, mst: u8, offset: u32) -> (r: Option<(usize, usize)>)
        requires
            i < 9,
        ensures
            slot_is(r, self@.narrow(i as int, mst as int, offset)),
    {
        let ofs: u32 = ((self.banks[i].control / 8) % 4) as u32;
        let base: u32 = (ofs % 2) * 0x4000 + (ofs / 2) * 0x1_0000;
        self.window(i, mst, base, 0x4000, offset)
    }

    fn byte_at(&self, slot: Option<(usize, usize)>) -> (b: u8)
        requires
            slot is Some ==> (slot->0).0 < 9 && (slot->0).1 < self@.banks[(slot->0).0 as int].data.len(),
        ensures
            slot is None ==> b == 0,
            slot is Some ==> b == self@.banks[(slot->0).0 as int].data[(slot->0).1 as int],
    {
        match slot {
            Some((i, o)) => self.banks[i].data[o],
            None => 0,
        }
    }

    fn put(&mut self, slot: Option<(usize, usize)>, val: u8)
        requires
            old(self)@.wf(),
            slot is Some ==> (slot->0).0 < 9 && (slot->0).1 < old(
                self,
            )@.banks[(slot->0).0 as int].data.len(),
        ensures
            slot is None ==> final(self)@ == old(self)@,
            slot is Some ==> final(self)@ == old(self)@.with_byte(
                (slot->0).0 as int,
                (slot->0).1 as int,
                val,
            ),
            final(self)@.wf(),
    {
        if let Some((i, o)) = slot {
            self.banks[i].data[o] = val;
            assert(self@.banks =~= old(self)@.with_byte(i as int, o as int, val).banks);
        }
    }

    /// Replaces the control register of bank `i`.
    pub fn set_control(&mut self, i: usize, val: u8)
        requires
            old(self)@.wf(),
            i < 9,
        ensures
            final(self)@ == old(self)@.with_control(i as int, val),
            final(self)@.wf(),
    {
        self.banks[i].control = val;
        assert(self@.banks =~= old(self)@.with_control(i as int, val).banks);
    }

    fn lcdc_slot(&self, offset: u32) -> (r: Option<(usize, usize)>)
        requires
            self@.wf(),
        ensures
            slot_is(r, self@.lcdc_slot(offset)),
            r is Some ==> (r->0).0 < 9 && (r->0).1 < self@.banks[(r->0).0 as int].data.len(),
    {
        if offset < 0x8_0000 {
            let i: usize = (offset / 0x2_0000) as usize;
            self.window(i, 0, (offset / 0x2_0000) * 0x2_0000, 0x2_0000, offset)
        } else if offset < 0x9_0000 {
            self.window(4, 0, 0x8_0000, 0x1_0000, offset)
        } else if offset < 0x9_4000 {
            self.window(5, 0, 0x9_0000, 0x4000, offset)
        } else if offset < 0x9_8000 {
            self.window(6, 0, 0x9_4000, 0x4000, offset)
        } else if offset < 0xA_0000 {
            self.window(7, 0, 0x9_8000, 0x8000, offset)
        } else {
            self.window(8, 0, 0xA_0000, 0x4000, offset)
        }
    }

    fn bg_a_slot(&self, offset: u32) -> (r: Option<(usize, usize)>)
        requires
            self@.wf(),
        ensures
            slot_is(r, self@.bg_a_slot(offset)),
            r is Some ==> (r->0).0 < 9 && (r->0).1 < self@.banks[(r->0).0 as int].data.len(),
    {
        let r = self.wide(0, 1, offset);
        if r.is_some() {
            return r;
        }
        let r = self.wide(1, 1, offset);
        if r.is_some() {
            return r;
        }
        let r = self.wide(2, 1, offset);
        if r.is_some() {
            return r;
        }
        let r = self.wide(3, 1, offset);
        if r.is_some() {
            return r;
        }
        let r = self.window(4, 1, 0, 0x1_0000, offset);
        if r.is_some() {
            return r;
        }
        let r = self.narrow(5, 1, offset);
        if r.is_some() {
            return r;
        }
        self.narrow(6, 1, offset)
    }

    fn obj_a_slot(&self, offset: u32) -> (r: Option<(usize, usize)>)
        requires
            self@.wf(),
        ensures
            slot_is(r, self@.obj_a_slot(offset)),
            r is Some ==> (r->0).0 < 9 && (r->0).1 < self@.banks[(r->0).0 as int].data.len(),
    {
        let r = self.wide(0, 2, offset);
        if r.is_some() {
            return r;
        }
        let r = self.wide(1, 2, offset);
        if r.is_some() {
            return r;
        }
        let r = self.window(4, 2, 0, 0x1_0000, offset);
        if r.is_some() {
            return r;
        }
        let r = self.narrow(5, 2, offset);
        if r.is_some() {
            return r;
        }
        self.narrow(6, 2, offset)
    }

    fn bg_b_slot(&self, offset: u32) -> (r: Option<(usize, usize)>)
        requires
            self@.wf(),
        ensures
            slot_is(r, self@.bg_b_slot(offset)),
            r is Some ==> (r->0).0 < 9 && (r->0).1 < self@.banks[(r->0).0 as int].data.len(),
    {
        let r = self.window(2, 4, 0, 0x2_0000, offset);
        if r.is_some() {
            return r;
        }
        let r = self.window(7, 1, 0, 0x8000, offset);
        if r.is_some() {
            return r;
        }
        self.window(8, 1, 0x8000, 0x4000, offset)
    }

    fn obj_b_slot(&self, offset: u32) -> (r: Option<(usize, usize)>)
        requires
            self@.wf(),
        ensures
            slot_is(r, self@.obj_b_slot(offset)),
            r is Some ==> (r->0).0 < 9 && (r->0).1 < self@.banks[(r->0).0 as int].data.len(),
    {
        let r = self.window(3, 4, 0, 0x2_0000, offset);
        if r.is_some() {
            return r;
        }
        self.window(8, 2, 0, 0x4000, offset)
    }

    fn tex_image_slot(&self, offset: u32) -> (r: Option<(usize, usize)>)
        requires
            self@.wf(),
        ensures
            slot_is(r, self@.tex_image_slot(offset)),
            r is Some ==> (r->0).0 < 9 && (r->0).1 < self@.banks[(r->0).0 as int].data.len(),
    {
        let r = self.wide(0, 3, offset);
        if r.is_some() {
            return r;
        }
        let r = self.wide(1, 3, offset);
        if r.is_some() {
            return r;
        }
        let r = self.wide(2, 3, offset);
        if r.is_some() {
            return r;
        }
        self.wide(3, 3, offset)
    }

    fn tex_pal_slot(&self, offset: u32) -> (r: Option<(usize, usize)>)
        requires
            self@.wf(),
        ensures
            slot_is(r, self@.tex_pal_slot(offset)),
            r is Some ==> (r->0).0 < 9 && (r->0).1 < self@.banks[(r->0).0 as int].data.len(),
    {
        let r = self.window(4, 3, 0, 0x1_0000, offset);
        if r.is_some() {
            return r;
        }
        let r = self.narrow(5, 3, offset);
        if r.is_some() {
            return r;
        }
        self.narrow(6, 3, offset)
    }

    fn arm7_slot(&self, offset: u32) -> (r: Option<(usize, usize)>)
        requires
            self@.wf(),
        ensures
            slot_is(r, self@.arm7_slot(offset)),
            r is Some ==> (r->0).0 < 9 && (r->0).1 < self@.banks[(r->0).0 as int].data.len(),
    {
        if let Some(o) = self.banks[2].arm7_window_slot(offset) {
            return Some((2, o));
        }
        match self.banks[3].arm7_window_slot(offset) {
            Some(o) => Some((3, o)),
            None => None,
        }
    }

    /// Reads a byte of the processor's direct window; zero where nothing is mapped.
    pub fn read_lcdc(&self, offset: u32) -> (b: u8)
        requires
            self@.wf(),
        ensures
            b == self@.byte_at(self@.lcdc_slot(offset)),
    {
        self.byte_at(self.lcdc_slot(offset))
    }

    /// Writes a byte of the processor's direct window; lost where nothing is mapped.
    pub fn write_lcdc(&mut self, offset: u32, val: u8)
        requires
            old(self)@.wf(),
        ensures
            final(self)@ == old(self)@.put(old(self)@.lcdc_slot(offset), val),
            final(self)@.wf(),
    {
        let slot = self.lcdc_slot(offset);
        self.put(slot, val);
    }

    /// Reads a byte of the main background window; zero where nothing is mapped.
    pub fn read_bg_a(&self, offset: u32) -> (b: u8)
        requires
            self@.wf(),
        ensures
            b == self@.byte_at(self@.bg_a_slot(offset)),
    {
        self.byte_at(self.bg_a_slot(offset))
    }

    /// Writes a byte of the main background window; lost where nothing is mapped.
    pub fn write_bg_a(&mut self, offset: u32, val: u8)
        requires
            old(self)@.wf(),
        ensures
            final(self)@ == old(self)@.put(old(self)@.bg_a_slot(offset), val),
            final(self)@.wf(),
    {
        let slot = self.bg_a_slot(offset);
        self.put(slot, val);
    }

    /// Reads a byte of the sub background window; zero where nothing is mapped.
    pub fn read_bg_b(&self, offset: u32) -> (b: u8)
        requires
            self@.wf(),
        ensures
            b == self@.byte_at(self@.bg_b_slot(offset)),
    {
        self.byte_at(self.bg_b_slot(offset))
    }

    /// Writes a byte of the sub background window; lost where nothing is mapped.
    pub fn write_bg_b(&mut self, offset: u32, val: u8)
        requires
            old(self)@.wf(),
        ensures
            final(self)@ == old(self)@.put(old(self)@.bg_b_slot(offset), val),
            final(self)@.wf(),
    {
        let slot = self.bg_b_slot(offset);
        self.put(slot, val);
    }

    /// Reads a byte of the main sprite window; zero where nothing is mapped.
    pub fn read_obj_a(&self, offset: u32) -> (b: u8)
        requires
            self@.wf(),
        ensures
            b == self@.byte_at(self@.obj_a_slot(offset)),
    {
        self.byte_at(self.obj_a_slot(offset))
    }

    /// Writes a byte of the main sprite window; lost where nothing is mapped.
    pub fn write_obj_a(&mut self, offset: u32, val: u8)
        requires
            old(self)@.wf(),
        ensures
            final(self)@ == old(self)@.put(old(self)@.obj_a_slot(offset), val),
            final(self)@.wf(),
    {
        let slot = self.obj_a_slot(offset);
        self.put(slot, val);
    }

    /// Reads a byte of the sub sprite window; zero where nothing is mapped.
    pub fn read_obj_b(&self, offset: u32) -> (b: u8)
        requires
            self@.wf(),
        ensures
            b == self@.byte_at(self@.obj_b_slot(offset)),
    {
        self.byte_at(self.obj_b_slot(offset))
    }

    /// Writes a byte of the sub sprite window; lost where nothing is mapped.
    pub fn write_obj_b(&mut self, offset: u32, val: u8)
        requires
            old(self)@.wf(),
        ensures
            final(self)@ == old(self)@.put(old(self)@.obj_b_slot(offset), val),
            final(self)@.wf(),
    {
        let slot = self.obj_b_slot(offset);
        self.put(slot, val);
    }

    /// Reads a byte of the second processor's window; zero where nothing is mapped.
    pub fn read_arm7(&self, offset: u32) -> (b: u8)
        requires
            self@.wf(),
        ensures
            b == self@.byte_at(self@.arm7_slot(offset)),
    {
        self.byte_at(self.arm7_slot(offset))
    }

    /// Writes a byte of the second processor's window; lost where nothing is mapped.
    pub fn write_arm7(&mut self, offset: u32, val: u8)
        requires
            old(self)@.wf(),
        ensures
            final(self)@ == old(self)@.put(old(self)@.arm7_slot(offset), val),
            final(self)@.wf(),
    {
        let slot = self.arm7_slot(offset);
        self.put(slot, val);
    }

    /// Reads a byte of the texture image space; zero where nothing is mapped.
    pub fn read_tex_image(&self, offset: u32) -> (b: u8)
        requires
            self@.wf(),
        ensures
            b == self@.byte_at(self@.tex_image_slot(offset)),
    {
        self.byte_at(self.tex_image_slot(offset))
    }

    /// Reads a byte of the texture palette space; zero where nothing is mapped.
    pub fn read_tex_pal(&self, offset: u32) -> (b: u8)
        requires
            self@.wf(),
        ensures
            b == self@.byte_at(self@.tex_pal_slot(offset)),
    {
        self.byte_at(self.tex_pal_slot(offset))
    }

    fn flat_hit(&self, i: usize, target: u8, offset: u32) -> (r: Option<usize>)
        requires
            self@.wf(),
            i < 9,
        ensures
            r is Some <==> self@.flat_hit(i as int, target, offset),
            r is Some ==> r->0 == self@.flat_index(i as int, offset) && r->0
                < self@.banks[i as int].data.len(),
    {
        let len: u32 = self.banks[i].data.len() as u32;
        assert(len == self@.banks[i as int].data.len());
        let ofs: u32 = ((self.banks[i].control / 8) % 4) as u32;
        assert(0 <= ofs * len <= 3 * 0x2_0000) by (nonlinear_arith)
            requires
                ofs < 4,
                len <= 0x2_0000,
        ;
        let base: u32 = ofs * len;
        if self.banks[i].control >= 0x80 && self.banks[i].control % 8 == target && offset >= base
            && offset < base + len {
            Some((offset - base) as usize)
        } else {
            None
        }
    }

    /// Reads through the flat decoding: the first bank mapped to `target` whose
    /// window, at the offset field times its own size, holds `offset`.
    pub fn read_target(&self, target: u8, offset: u32) -> (b: u8)
        requires
            self@.wf(),
        ensures
            b == self@.flat_read(target, offset, 0),
    {
        let mut i: usize = 0;
        while i < 9
            invariant
                0 <= i <= 9,
                self@.wf(),
                self@.flat_read(target, offset, 0) == self@.flat_read(target, offset, i as int),
            decreases 9 - i,
        {
            if let Some(o) = self.flat_hit(i, target, offset) {
                return self.banks[i].data[o];
            }
            i = i + 1;
        }
        0
    }

    /// Writes through the flat decoding: every answering bank stores the byte,
    /// and a write that reaches none is counted.
    pub fn write_target(&mut self, target: u8, offset: u32, val: u8)
        requires
            old(self)@.wf(),
        ensures
            final(self)@ == old(self)@.flat_put(target, offset, val),
            final(self)@.wf(),
    {
        let ghost v0 = self@;
        let mut landed: bool = false;
        let mut i: usize = 0;
        while i < 9
            invariant
                0 <= i <= 9,
                v0 == old(self)@,
                v0.wf(),
                self@.wf(),
                self@.dropped_writes == v0.dropped_writes,
                self@.dropped_by_target == v0.dropped_by_target,
                forall|k: int|
                    0 <= k < 9 ==> #[trigger] self@.banks[k] == (if k < i {
                        v0.flat_written(target, offset, val)[k]
                    } else {
                        v0.banks[k]
                    }),
                landed <==> exists|k: int| 0 <= k < i && v0.flat_hit(k, target, offset),
            decreases 9 - i,
        {
            assert(self@.banks[i as int] == v0.banks[i as int]);
            let hit: Option<usize> = self.flat_hit(i, target, offset);
            assert(hit is Some <==> v0.flat_hit(i as int, target, offset));
            if hit.is_some() {
                landed = true;
            }
            let slot: Option<(usize, usize)> = match hit {
                Some(o) => Some((i, o)),
                None => None,
            };
            self.put(slot, val);
            i = i + 1;
        }
        assert(self@.banks =~= v0.flat_written(target, offset, val));
        if !landed {
            self.dropped_writes = self.dropped_writes.wrapping_add(1);
            if target < 8 {
                let n: u64 = self.dropped_by_target[target as usize].wrapping_add(1);
                self.dropped_by_target[target as usize] = n;
            }
        }
    }
}

/// Every decoding stays inside the bank that it names.
pub proof fn law_slots_stay_inside_their_bank(v: VramModel, offset: u32)
    requires
        v.wf(),
    ensures
        forall|s: Option<(int, int)>|
            #![trigger v.byte_at(s)]
            (s == v.lcdc_slot(offset) || s == v.bg_a_slot(offset) || s == v.bg_b_slot(offset) || s
                == v.obj_a_slot(offset) || s == v.obj_b_slot(offset) || s == v.tex_image_slot(offset)
                || s == v.tex_pal_slot(offset) || s == v.arm7_slot(offset)) && s is Some ==> {
                &&& 0 <= (s->0).0 < 9
                &&& 0 <= (s->0).1 < v.banks[(s->0).0].data.len()
            },
{
}

/// Whether a byte stored at a place is found there by a decoding that gives
/// `after` once it was stored.
pub open spec fn reads_back(
    v: VramModel,
    slot: Option<(int, int)>,
    after: Option<(int, int)>,
    val: u8,
) -> bool {
    after == slot && (slot is Some ==> v.put(slot, val).byte_at(slot) == val)
}

#[verifier::spinoff_prover]
proof fn lemma_bg_a_reads_back(v: VramModel, offset: u32, val: u8)
    requires
        v.wf(),
    ensures
        reads_back(
            v,
            v.bg_a_slot(offset),
            v.put(v.bg_a_slot(offset), val).bg_a_slot(offset),
            val,
        ),
{
}

#[verifier::spinoff_prover]
proof fn lemma_bg_b_reads_back(v: VramModel, offset: u32, val: u8)
    requires
        v.wf(),
    ensures
        reads_back(
            v,
            v.bg_b_slot(offset),
            v.put(v.bg_b_slot(offset), val).bg_b_slot(offset),
            val,
        ),
{
}

#[verifier::spinoff_prover]
proof fn lemma_obj_a_reads_back(v: VramModel, offset: u32, val: u8)
    requires
        v.wf(),
    ensures
        reads_back(
            v,
            v.obj_a_slot(offset),
            v.put(v.obj_a_slot(offset), val).obj_a_slot(offset),
            val,
        ),
{
}

#[verifier::spinoff_prover]
proof fn lemma_obj_b_reads_back(v: VramModel, offset: u32, val: u8)
    requires
        v.wf(),
    ensures
        reads_back(
            v,
            v.obj_b_slot(offset),
            v.put(v.obj_b_slot(offset), val).obj_b_slot(offset),
            val,
        ),
{
}

#[verifier::spinoff_prover]
proof fn lemma_lcdc_reads_back(v: VramModel, offset: u32, val: u8)
    requires
        v.wf(),
    ensures
        reads_back(
            v,
            v.lcdc_slot(offset),
            v.put(v.lcdc_slot(offset), val).lcdc_slot(offset),
            val,
        ),
{
}

#[verifier::spinoff_prover]
proof fn lemma_arm7_reads_back(v: VramModel, offset: u32, val: u8)
    requires
        v.wf(),
    ensures
        reads_back(
            v,
            v.arm7_slot(offset),
            v.put(v.arm7_slot(offset), val).arm7_slot(offset),
            val,
        ),
{
}

/// A byte written through a window reads back through the same window.
pub proof fn law_window_read_after_write(v: VramModel, offset: u32, val: u8)
    requires
        v.wf(),
    ensures
        reads_back(
            v,
            v.bg_a_slot(offset),
            v.put(v.bg_a_slot(offset), val).bg_a_slot(offset),
            val,
        ),
        reads_back(
            v,
            v.bg_b_slot(offset),
            v.put(v.bg_b_slot(offset), val).bg_b_slot(offset),
            val,
        ),
        reads_back(
            v,
            v.obj_a_slot(offset),
            v.put(v.obj_a_slot(offset), val).obj_a_slot(offset),
            val,
        ),
        reads_back(
            v,
            v.obj_b_slot(offset),
            v.put(v.obj_b_slot(offset), val).obj_b_slot(offset),
            val,
        ),
        reads_back(
            v,
            v.lcdc_slot(offset),
            v.put(v.lcdc_slot(offset), val).lcdc_slot(offset),
            val,
        ),
        reads_back(
            v,
            v.arm7_slot(offset),
            v.put(v.arm7_slot(offset), val).arm7_slot(offset),
            val,
        ),
{
    lemma_bg_a_reads_back(v, offset, val);
    lemma_bg_b_reads_back(v, offset, val);
    lemma_obj_a_reads_back(v, offset, val);
    lemma_obj_b_reads_back(v, offset, val);
    lemma_lcdc_reads_back(v, offset, val);
    lemma_arm7_reads_back(v, offset, val);
}

/// The two engines never share a bank: no slot of a main-engine window and no
/// slot of a sub-engine window of the same kind name the same bank.
pub proof fn law_engines_do_not_share_banks(v: VramModel, a: u32, b: u32)
    requires
        v.wf(),
        v.bg_a_slot(a) is Some && v.bg_b_slot(b) is Some || v.obj_a_slot(a) is Some && v.obj_b_slot(
            b,
        ) is Some,
    ensures
        v.bg_a_slot(a) is Some && v.bg_b_slot(b) is Some ==> (v.bg_a_slot(a)->0).0 != (v.bg_b_slot(
            b,
        )->0).0,
        v.obj_a_slot(a) is Some && v.obj_b_slot(b) is Some ==> (v.obj_a_slot(a)->0).0
            != (v.obj_b_slot(b)->0).0,
{
}

impl VramModel {
    /// Whether every bank has its size.
    pub open spec fn fits(self) -> bool {
        forall|i: int| 0 <= i < 9 ==> #[trigger] self.banks[i].data.len() == bank_size(i)
    }

    /// Banks that resume from saved ones; the counters are not saved.
    pub open spec fn resumed(self, saved: VramModel) -> VramModel {
        VramModel { banks: saved.banks, ..self }
    }
}

/// Size of a bank.
fn bank_bytes(i: usize) -> (n: usize)
    requires
        i < 9,
    ensures
        n == bank_size(i as int),
{
    if i < 4 {
        0x2_0000
    } else if i == 4 {
        0x1_0000
    } else if i == 7 {
        0x8000
    } else {
        0x4000
    }
}

impl VramManager {
    /// Whether every bank has its size.
    pub fn fits(&self) -> (fit: bool)
        ensures
            fit == self@.fits(),
    {
        let mut i: usize = 0;
        while i < 9
            invariant
                i <= 9,
                forall|k: int| 0 <= k < i ==> #[trigger] self@.banks[k].data.len() == bank_size(k),
            decreases 9 - i,
        {
            if self.banks[i].data.len() != bank_bytes(i) {
                assert(self@.banks[i as int].data.len() != bank_size(i as int));
                return false;
            }
            assert(self@.banks[i as int].data.len() == bank_size(i as int));
            i = i + 1;
        }
        true
    }

    /// Takes the banks of a saved manager over.
    pub fn resume_from(&mut self, saved: &VramManager)
        ensures
            final(self)@ == old(self)@.resumed(saved@),
    {
        let mut i: usize = 0;
        while i < 9
            invariant
                i <= 9,
                forall|k: int| 0 <= k < i ==> (#[trigger] self.banks@[k])@ == saved.banks@[k]@,
                self.dropped_writes == old(self).dropped_writes,
                self.dropped_by_target == old(self).dropped_by_target,
            decreases 9 - i,
        {
            let data = bytes::copied(&saved.banks[i].data);
            self.banks[i] = VramBank { data, control: saved.banks[i].control };
            i = i + 1;
        }
        assert(self@.banks =~= saved@.banks);
    }
}

} // verus!
