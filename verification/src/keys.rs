//! Buttons and the key-state registers built from them.

use vstd::prelude::*;

verus! {

/// What the player holds down.
#[derive(Clone, Copy, Debug, PartialEq, Eq, Structural)]
pub struct ButtonState {
    pub up: bool,
    pub down: bool,
    pub left: bool,
    pub right: bool,
    pub a: bool,
    pub b: bool,
    pub start: bool,
    pub select: bool,
    pub l: bool,
    pub r: bool,
    pub x: bool,
    pub y: bool,
    pub nds_touch_x: u16,
    pub nds_touch_y: u16,
    pub nds_touch_pressed: bool,
}

/// `mask` where `on`, else zero.
pub open spec fn lit(on: bool, mask: u16) -> u16 {
    if on {
        mask
    } else {
        0
    }
}

fn lit_mask(on: bool, mask: u16) -> (m: u16)
    ensures
        m == lit(on, mask),
{
    if on {
        mask
    } else {
        0
    }
}

impl ButtonState {
    /// Nothing held.
    pub open spec fn spec_released() -> ButtonState {
        ButtonState {
            up: false,
            down: false,
            left: false,
            right: false,
            a: false,
            b: false,
            start: false,
            select: false,
            l: false,
            r: false,
            x: false,
            y: false,
            nds_touch_x: 0,
            nds_touch_y: 0,
            nds_touch_pressed: false,
        }
    }

    pub fn released() -> (r: ButtonState)
        ensures
            r == ButtonState::spec_released(),
    {
        ButtonState {
            up: false,
            down: false,
            left: false,
            right: false,
            a: false,
            b: false,
            start: false,
            select: false,
            l: false,
            r: false,
            x: false,
            y: false,
            nds_touch_x: 0,
            nds_touch_y: 0,
            nds_touch_pressed: false,
        }
    }

    /// Key register: one bit per button, set while the button is up; the top
    /// six bits always read one.
    pub open spec fn spec_keyinput(self) -> u16 {
        0xFC00u16 | lit(!self.a, 0x001) | lit(!self.b, 0x002) | lit(!self.select, 0x004) | lit(
            !self.start,
            0x008,
        ) | lit(!self.right, 0x010) | lit(!self.left, 0x020) | lit(!self.up, 0x040) | lit(
            !self.down,
            0x080,
        ) | lit(!self.r, 0x100) | lit(!self.l, 0x200)
    }

    pub fn keyinput(&self) -> (k: u16)
        ensures
            k == self.spec_keyinput(),
    {
        0xFC00u16 | lit_mask(!self.a, 0x001) | lit_mask(!self.b, 0x002) | lit_mask(
            !self.select,
            0x004,
        ) | lit_mask(!self.start, 0x008) | lit_mask(!self.right, 0x010) | lit_mask(
            !self.left,
            0x020,
        ) | lit_mask(!self.up, 0x040) | lit_mask(!self.down, 0x080) | lit_mask(!self.r, 0x100)
            | lit_mask(!self.l, 0x200)
    }

    /// Extended key register: X, Y and pen are low while active; the hinge bit
    /// reads zero, the lid being open.
    pub open spec fn spec_extkeyin(self) -> u16 {
        0xFF3Cu16 | lit(!self.x, 0x01) | lit(!self.y, 0x02) | lit(!self.nds_touch_pressed, 0x40)
    }

    pub fn extkeyin(&self) -> (k: u16)
        ensures
            k == self.spec_extkeyin(),
    {
        0xFF3Cu16 | lit_mask(!self.x, 0x01) | lit_mask(!self.y, 0x02) | lit_mask(
            !self.nds_touch_pressed,
            0x40,
        )
    }
}

proof fn lemma_key_bits(
    a: bool,
    b: bool,
    select: bool,
    start: bool,
    right: bool,
    left: bool,
    up: bool,
    down: bool,
    r: bool,
    l: bool,
)
    by (bit_vector)
    ensures
        ({
            let k = 0xFC00u16 | lit(!a, 0x001) | lit(!b, 0x002) | lit(!select, 0x004) | lit(
                !start,
                0x008,
            ) | lit(!right, 0x010) | lit(!left, 0x020) | lit(!up, 0x040) | lit(!down, 0x080) | lit(
                !r,
                0x100,
            ) | lit(!l, 0x200);
            &&& (k & 0x001 == 0) == a
            &&& (k & 0x002 == 0) == b
            &&& (k & 0x004 == 0) == select
            &&& (k & 0x008 == 0) == start
            &&& (k & 0x010 == 0) == right
            &&& (k & 0x020 == 0) == left
            &&& (k & 0x040 == 0) == up
            &&& (k & 0x080 == 0) == down
            &&& (k & 0x100 == 0) == r
            &&& (k & 0x200 == 0) == l
            &&& k & 0xFC00 == 0xFC00
        }),
{
}

proof fn lemma_ext_bits(x: bool, y: bool, pen: bool)
    by (bit_vector)
    ensures
        ({
            let k = 0xFF3Cu16 | lit(!x, 0x01) | lit(!y, 0x02) | lit(!pen, 0x40);
            &&& (k & 0x01 == 0) == x
            &&& (k & 0x02 == 0) == y
            &&& (k & 0x40 == 0) == pen
            &&& k & 0x80 == 0
            &&& k & 0xFF3C == 0xFF3C
        }),
{
}

/// Each button drives its own bit of the key register and no other, active
/// low; the unused bits read one.
pub proof fn law_keys_are_active_low(b: ButtonState)
    ensures
        (b.spec_keyinput() & 0x001 == 0) == b.a,
        (b.spec_keyinput() & 0x002 == 0) == b.b,
        (b.spec_keyinput() & 0x004 == 0) == b.select,
        (b.spec_keyinput() & 0x008 == 0) == b.start,
        (b.spec_keyinput() & 0x010 == 0) == b.right,
        (b.spec_keyinput() & 0x020 == 0) == b.left,
        (b.spec_keyinput() & 0x040 == 0) == b.up,
        (b.spec_keyinput() & 0x080 == 0) == b.down,
        (b.spec_keyinput() & 0x100 == 0) == b.r,
        (b.spec_keyinput() & 0x200 == 0) == b.l,
        b.spec_keyinput() & 0xFC00 == 0xFC00,
{
    lemma_key_bits(b.a, b.b, b.select, b.start, b.right, b.left, b.up, b.down, b.r, b.l);
}

/// X, Y and pen each drive their own bit, active low, and the hinge bit always
/// reads zero: the lid is open.
pub proof fn law_ext_keys_and_open_hinge(b: ButtonState)
    ensures
        (b.spec_extkeyin() & 0x01 == 0) == b.x,
        (b.spec_extkeyin() & 0x02 == 0) == b.y,
        (b.spec_extkeyin() & 0x40 == 0) == b.nds_touch_pressed,
        b.spec_extkeyin() & 0x80 == 0,
        b.spec_extkeyin() & 0xFF3C == 0xFF3C,
{
    lemma_ext_bits(b.x, b.y, b.nds_touch_pressed);
}

} // verus!
