use nds_core::bytes;
use nds_core::ipc::IpcState;
use nds_core::keys::ButtonState;
use nds_core::maths::{divide, isqrt};
use nds_core::mmu::NdsMmu;
use nds_core::rtc::NdsRtc;
use nds_core::tcm::{Cp15Registers, TcmMap, TcmWindow};

#[test]
fn bytes_compose_and_split() {
    assert_eq!(bytes::word(0x78, 0x56, 0x34, 0x12), 0x1234_5678);
    assert_eq!(bytes::halfword(0xCD, 0xAB), 0xABCD);
    for k in 0..4 {
        assert_eq!(bytes::get_byte(0x1234_5678, k), [0x78, 0x56, 0x34, 0x12][k as usize]);
    }
    assert_eq!(bytes::put_byte(0x1234_5678, 2, 0xFF), 0x12FF_5678);
    assert_eq!((bytes::low_byte(0xABCD), bytes::high_byte(0xABCD)), (0xCD, 0xAB));
    assert_eq!(bytes::get_byte64(0x0102_0304_0506_0708, 7), 1);
    assert_eq!(bytes::put_byte64(0, 5, 0xEE), 0xEE00_0000_0000);
}

#[test]
fn division_truncates_toward_zero() {
    assert_eq!(divide(100, 7), (14, 2));
    assert_eq!(divide(-100, 7), (-14, -2));
    assert_eq!(divide(100, -7), (-14, 2));
    assert_eq!(divide(-100, -7), (14, -2));
}

#[test]
fn square_roots_are_rounded_down() {
    for (v, r) in [(0, 0), (1, 1), (3, 1), (4, 2), (99, 9), (100, 10)] {
        assert_eq!(isqrt(v), r);
    }
    assert_eq!(isqrt(u64::MAX), u32::MAX);
}

#[test]
fn a_zero_denominator_hands_the_numerator_back() {
    let mut mmu = NdsMmu::new();
    mmu.write_halfword_arm9(0x0400_0280, 1);
    mmu.write_word_arm9(0x0400_0290, 0x1234_5678);
    mmu.write_word_arm9(0x0400_0298, 0);
    assert_eq!(mmu.read_word_arm9(0x0400_02A0), 0);
    assert_eq!(mmu.read_word_arm9(0x0400_02A8), 0x1234_5678);
    assert_eq!(mmu.read_halfword_arm9(0x0400_0280) & 0x4000, 0x4000);
}

#[test]
fn keys_are_active_low() {
    let mut b = ButtonState::released();
    assert_eq!(b.keyinput() & 0x3FF, 0x3FF);
    assert_eq!(b.extkeyin(), 0xFF7F);
    b.a = true;
    b.l = true;
    assert_eq!(b.keyinput() & 0x3FF, 0x3FF & !1 & !0x200);
    b.x = true;
    b.nds_touch_pressed = true;
    assert_eq!(b.extkeyin(), 0xFF7F & !1 & !0x40);
}

#[test]
fn queues_are_first_in_first_out() {
    let mut ipc = IpcState::new();
    ipc.set_cnt9(0x8000);
    ipc.set_cnt7(0x8000 | 1 << 10);
    assert!(ipc.send9(1), "the receiver asked to be woken");
    assert!(!ipc.send9(2), "only the first word wakes");
    assert_eq!(ipc.receive7(), (1, true, false));
    assert_eq!(ipc.receive7().0, 2);
    assert!(!ipc.receive7().1, "nothing is left");
    assert_ne!(ipc.cnt7() & 0x4000, 0, "reading an empty queue latches the error");
}

#[test]
fn a_full_queue_drops_the_word_and_latches_the_error() {
    let mut ipc = IpcState::new();
    ipc.set_cnt9(0x8000);
    ipc.set_cnt7(0x8000);
    for i in 0..16 {
        ipc.send7(i);
    }
    assert_eq!(ipc.cnt7() & 0x4002, 2, "full, no error yet");
    ipc.send7(99);
    assert_eq!(ipc.fifo_7to9.len(), 16);
    assert_eq!(ipc.cnt7() & 0x4000, 0x4000);
    ipc.set_cnt9(0x8008);
    assert_eq!(ipc.fifo_7to9.len(), 16, "a control write clears the own send queue only");
}

/// Clocks a byte into the clock chip, low bit first.
fn clock_in(rtc: &mut NdsRtc, byte: u8) {
    for i in 0..8 {
        let bit = byte >> i & 1;
        rtc.write(0x14 | bit);
        rtc.write(0x16 | bit);
    }
}

fn clock_out(rtc: &mut NdsRtc) -> u8 {
    (0..8).fold(0, |byte, i| {
        rtc.write(0x04);
        let bit = rtc.read() & 1;
        rtc.write(0x06);
        byte | bit << i
    })
}

#[test]
fn the_clock_answers_in_either_bit_order() {
    for command in [0x65u8, 0x65u8.reverse_bits()] {
        let mut rtc = NdsRtc::default();
        rtc.write(0x12);
        rtc.write(0x16);
        clock_in(&mut rtc, command);
        let date: Vec<u8> = (0..7).map(|_| clock_out(&mut rtc)).collect();
        assert_eq!(date, vec![0x24, 0x01, 0x01, 0x01, 0x12, 0x00, 0x00]);
    }
}

#[test]
fn windows_follow_the_registers() {
    let regs = Cp15Registers {
        control: 0x4_0000,
        itcm_control: 0xFFFF_F000 | 6 << 1,
        dtcm_control: 0x0B00_000A,
    };
    let map = TcmMap::new(regs);
    assert!(map.in_itcm(0xFFFF_F000) && map.in_itcm(0x0000_6FFF), "it wraps around");
    assert!(!map.in_itcm(0x0000_7000));
    assert!(!map.in_dtcm(0x0B00_0000), "it is not enabled");
    assert_eq!(TcmWindow::derive(true, 0x0B00_000A), TcmWindow { base: 0x0B00_0000, size: 0x4000 });
    assert_eq!(TcmWindow::derive(false, 0x0B00_000A), TcmWindow { base: 0, size: 0 });
}

#[test]
fn a_timer_counts_across_many_overflows_at_once() {
    let mut mmu = NdsMmu::new();
    mmu.write_halfword_arm9(0x0400_0100, 0xFFFE);
    mmu.write_byte_arm9(0x0400_0102, 0x81); // start, a count every 64 cycles
    mmu.tick_nds_timers(64 * 5);
    assert_eq!(mmu.read_halfword_arm9(0x0400_0100), 0xFFFF);
    assert_eq!(mmu.irq.arm9_if, 0);
}

#[test]
fn division_by_zero_hands_the_numerator_back() {
    let mut mmu = NdsMmu::new();
    for (mode, upper) in [(0u16, 0xFFFF_FFFFu32), (1, 0x1234_5678), (2, 0x1234_5678)] {
        mmu.write_halfword_arm9(0x0400_0280, mode);
        mmu.write_word_arm9(0x0400_0290, 0x8000_0001);
        mmu.write_word_arm9(0x0400_0294, 0x1234_5678);
        mmu.write_word_arm9(0x0400_0298, 0);
        mmu.write_word_arm9(0x0400_029C, 0);
        assert_eq!(mmu.read_word_arm9(0x0400_02A0), 0, "quotient in mode {mode}");
        assert_eq!(mmu.read_word_arm9(0x0400_02A4), 0);
        assert_eq!(mmu.read_word_arm9(0x0400_02A8), 0x8000_0001, "remainder in mode {mode}");
        assert_eq!(mmu.read_word_arm9(0x0400_02AC), upper);
        assert_ne!(mmu.read_halfword_arm9(0x0400_0280) & 0x4000, 0, "flag in mode {mode}");
    }
}

#[test]
fn narrow_division_ignores_the_upper_denominator() {
    let mut mmu = NdsMmu::new();
    mmu.write_halfword_arm9(0x0400_0280, 1);
    mmu.write_word_arm9(0x0400_0290, 50);
    mmu.write_word_arm9(0x0400_0298, 0);
    mmu.write_word_arm9(0x0400_029C, 1);
    assert_eq!(mmu.read_word_arm9(0x0400_02A0), 0);
    assert_eq!(mmu.read_word_arm9(0x0400_02A8), 50);
}
