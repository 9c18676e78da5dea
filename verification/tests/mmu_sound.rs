use nds_core::apu::MIX_ONE;
use nds_core::mmu::sound::ApuSpan;
use nds_core::mmu::NdsMmu;

/// Spans with neighbours of equal level joined, so that only the waveform counts.
fn joined(spans: &[ApuSpan]) -> Vec<(u64, i64, i64)> {
    let mut out: Vec<(u64, i64, i64)> = Vec::new();
    for s in spans {
        match out.last_mut() {
            Some(last) if last.1 == s.left && last.2 == s.right => last.0 += u64::from(s.cycles),
            _ => out.push((u64::from(s.cycles), s.left, s.right)),
        }
    }
    out
}

fn cycles(spans: &[ApuSpan]) -> u64 {
    spans.iter().map(|s| u64::from(s.cycles)).sum()
}

/// Whether any span is louder than 100 of 32767 output steps.
fn audible(spans: &[ApuSpan]) -> bool {
    spans.iter().any(|s| s.left.abs().max(s.right.abs()) > MIX_ONE / 327)
}

#[test]
fn test_apu_pcm8_one_shot_mixes_then_clears_busy() {
    let mut mmu = NdsMmu::new();
    for i in 0..32u32 {
        mmu.write_byte_arm7(0x0200_0000 + i, if (i / 4) % 2 == 0 { 0x7F } else { 0x81 });
    }
    mmu.apu_write_byte(0x500, 0x7F); // master volume
    mmu.apu_write_byte(0x501, 0x80); // master enable
    let base = 0x400; // channel 0
    for (off, b) in [(4u32, 0x00u8), (5, 0x00), (6, 0x00), (7, 0x02)] {
        mmu.apu_write_byte(base + off, b); // SAD = 0x02000000
    }
    mmu.apu_write_byte(base + 8, 0x00); // TMR = 0xFD00 -> 1536 cycles/sample
    mmu.apu_write_byte(base + 9, 0xFD);
    mmu.apu_write_byte(base + 0xA, 0);
    mmu.apu_write_byte(base + 0xB, 0); // PNT = 0
    mmu.apu_write_byte(base + 0xC, 8); // LEN = 8 words = 32 samples
    mmu.apu_write_byte(base + 0, 0x7F); // vol 127
    mmu.apu_write_byte(base + 1, 0x00); // div /1
    mmu.apu_write_byte(base + 2, 0x40); // pan center
    mmu.apu_write_byte(base + 3, 0x90); // start + repeat mode 2 (one-shot)
    assert_ne!(mmu.read_byte_arm7(0x0400_0403) & 0x80, 0, "busy while playing");

    let mut spans: Vec<ApuSpan> = Vec::new();
    for _ in 0..1250 {
        spans.extend(mmu.tick_apu(64));
    }
    spans.extend(mmu.flush_apu());
    assert_eq!(cycles(&spans), 80_000, "every cycle is rendered");
    assert!(
        audible(&spans),
        "square wave must reach the output buffer non-silently"
    );
    assert!(!mmu.apu.channels[0].active, "one-shot must self-stop");
    assert_eq!(
        mmu.read_byte_arm7(0x0400_0403) & 0x80,
        0,
        "busy must clear when LEN is consumed"
    );
}

#[test]
fn test_apu_loop_stays_busy_and_adpcm_keyon_reads_header() {
    let mut mmu = NdsMmu::new();
    mmu.apu_write_byte(0x500, 0x7F);
    mmu.apu_write_byte(0x501, 0x80);
    mmu.write_word_arm7(0x0200_0100, (5 << 16) | 0x1234);
    let base = 0x400 + 16; // channel 1
    for (off, b) in [(4u32, 0x00u8), (5, 0x01), (6, 0x00), (7, 0x02)] {
        mmu.apu_write_byte(base + off, b); // SAD = 0x02000100
    }
    mmu.apu_write_byte(base + 8, 0x00);
    mmu.apu_write_byte(base + 9, 0xFD);
    mmu.apu_write_byte(base + 0xA, 1);
    mmu.apu_write_byte(base + 0xB, 0); // PNT = 1 (the header word)
    mmu.apu_write_byte(base + 0xC, 2); // LEN = 2 words
    mmu.apu_write_byte(base + 3, 0xC8); // start + ADPCM (fmt 2) + loop (rep 1)
    let ch = &mmu.apu.channels[1];
    assert_eq!(ch.adpcm_val, 0x1234, "header sample latched on key-on");
    assert_eq!(ch.adpcm_idx, 5, "header step index latched on key-on");
    assert_eq!(ch.cursor, 4, "ADPCM data starts after the header word");

    let mut spans: Vec<ApuSpan> = Vec::new();
    for _ in 0..2000 {
        spans.extend(mmu.tick_apu(64)); // 128k cycles >> (PNT+LEN)*4 samples
    }
    assert!(mmu.apu.channels[1].active, "looping channel stays busy");
    assert_ne!(mmu.read_byte_arm7(0x0400_0413) & 0x80, 0);
    mmu.apu_write_byte(base + 3, 0x48);
    assert!(!mmu.apu.channels[1].active);
    assert_eq!(mmu.read_byte_arm7(0x0400_0413) & 0x80, 0);
}

#[test]
fn test_apu_adpcm_loop_wrap_resumes_from_snapshot() {
    let mut mmu = NdsMmu::new();
    mmu.apu_write_byte(0x500, 0x7F);
    mmu.apu_write_byte(0x501, 0x80);
    mmu.write_word_arm7(0x0200_0200, (4 << 16) | 100);
    for i in 0..4u32 {
        mmu.write_byte_arm7(0x0200_0204 + i, 0x77);
        mmu.write_byte_arm7(0x0200_0208 + i, 0x22);
    }
    let base = 0x400 + 2 * 16; // channel 2
    for (off, b) in [(4u32, 0x00u8), (5, 0x02), (6, 0x00), (7, 0x02)] {
        mmu.apu_write_byte(base + off, b); // SAD = 0x02000200
    }
    mmu.apu_write_byte(base + 8, 0x00); // TMR = 0xFF00 -> 512 cycles/sample
    mmu.apu_write_byte(base + 9, 0xFF);
    mmu.apu_write_byte(base + 0xA, 2); // PNT = 2 words (header + 4 data bytes)
    mmu.apu_write_byte(base + 0xB, 0);
    mmu.apu_write_byte(base + 0xC, 1); // LEN = 1 word -> total 12 bytes
    mmu.apu_write_byte(base + 0, 0x7F);
    mmu.apu_write_byte(base + 2, 0x40);
    mmu.apu_write_byte(base + 3, 0xC8); // start + ADPCM + loop

    let mut spans: Vec<ApuSpan> = Vec::new();
    spans.extend(mmu.tick_apu(8 * 512)); // decode the 8 pre-loop nibbles
    let ch = mmu.apu.channels[2];
    assert_eq!(ch.cursor, 8, "at the loop point after the pre-loop bytes");
    assert!(!ch.adpcm_high);
    assert_eq!(
        (ch.adpcm_loop_val, ch.adpcm_loop_idx),
        (ch.adpcm_val, ch.adpcm_idx),
        "snapshot taken exactly when first crossing PNT"
    );
    let snap = (ch.cursor, ch.adpcm_val, ch.adpcm_idx, ch.adpcm_high);
    assert!(ch.adpcm_val > 1000, "pre-loop nibbles moved the decoder");

    spans.extend(mmu.tick_apu(4 * 512));
    assert_ne!(mmu.apu.channels[2].adpcm_val, snap.1);
    spans.extend(mmu.tick_apu(4 * 512));
    let ch = mmu.apu.channels[2];
    assert!(ch.active);
    assert_eq!(
        (ch.cursor, ch.adpcm_val, ch.adpcm_idx, ch.adpcm_high),
        snap,
        "loop wrap must resume from the PNT snapshot with no state jump"
    );
}

#[test]
fn test_apu_psg_wave_mixes_nonzero() {
    let mut mmu = NdsMmu::new();
    mmu.apu_write_byte(0x500, 0x7F);
    mmu.apu_write_byte(0x501, 0x80);
    let base = 0x400 + 8 * 16; // channel 8 = first PSG-capable
    mmu.apu_write_byte(base + 8, 0x00); // TMR = 0xFD00 -> ~21.9 kHz clock
    mmu.apu_write_byte(base + 9, 0xFD);
    mmu.apu_write_byte(base + 0, 0x7F); // vol 127
    mmu.apu_write_byte(base + 2, 0x40); // pan center
    mmu.apu_write_byte(base + 3, 0xE3); // start + fmt 3 + duty 3 (square)
    let mut spans: Vec<ApuSpan> = Vec::new();
    for _ in 0..1250 {
        spans.extend(mmu.tick_apu(64));
    }
    spans.extend(mmu.flush_apu());
    assert!(
        audible(&spans),
        "PSG square must reach the output buffer non-silently"
    );
    assert!(mmu.apu.channels[8].active, "PSG never self-stops");
    assert_ne!(mmu.read_byte_arm7(0x0400_0483) & 0x80, 0, "busy reads 1");
    mmu.apu_write_byte(base + 3, 0x63);
    assert!(!mmu.apu.channels[8].active, "start-bit clear stops PSG");
}

#[test]
fn apu_output_is_independent_of_slice_size() {
    let sad: u32 = 0x0200_0000;
    let total: u32 = 40_960;
    let build = || {
        let mut mmu = NdsMmu::new();
        for k in 0..64u32 {
            mmu.write_byte_arm7(sad + k, if (k / 4) % 2 == 0 { 0x60 } else { 0xA0 });
        }
        mmu.apu.soundcnt = 0x807F; // master enable + full master volume
        let ch = &mut mmu.apu.channels[0];
        ch.cnt = (1 << 27) | 0x0040_007F;
        ch.sad = sad;
        ch.tmr = 0xFF80; // period = 2 * 0x80 = 256 bus cycles
        ch.len = 16; // 16 words = the 64 bytes written above
        ch.active = true;
        mmu
    };
    let render = |slice: u32| -> Vec<ApuSpan> {
        let mut mmu = build();
        let mut spans: Vec<ApuSpan> = Vec::new();
        let mut done = 0;
        while done < total {
            let n = slice.min(total - done);
            spans.extend(mmu.tick_apu(n));
            done += n;
        }
        spans.extend(mmu.flush_apu());
        spans
    };
    let coarse = render(total);
    let fine = render(64);
    assert!(!coarse.is_empty(), "the channel must actually produce audio");
    assert!(
        coarse.iter().any(|s| s.left != 0),
        "the channel must produce signal, not silence"
    );
    assert_eq!(cycles(&coarse), cycles(&fine), "the same cycles are rendered");
    assert_eq!(joined(&coarse), joined(&fine), "slice size changed the output");
}

#[test]
fn slices_leave_the_same_machine() {
    let play = |slices: &[u32]| -> NdsMmu {
        let mut mmu = NdsMmu::new();
        for i in 0..64u32 {
            mmu.write_byte_arm7(0x0200_0000 + i, (i * 37) as u8);
        }
        mmu.apu_write_byte(0x500, 0x7F);
        mmu.apu_write_byte(0x501, 0x80);
        let ch = &mut mmu.apu.channels[0];
        ch.cnt = (1 << 27) | 0x0040_007F;
        ch.sad = 0x0200_0000;
        ch.tmr = 0xFF80;
        ch.len = 16;
        ch.active = true;
        for n in slices {
            mmu.tick_apu(*n);
        }
        mmu.flush_apu();
        mmu
    };
    let a = play(&[1, 2, 3, 994, 1000, 0, 999, 1]);
    let b = play(&[3000]);
    let c = play(&[1500, 1500]);
    for other in [&b, &c] {
        assert_eq!(a.apu.channels[0].timer_acc, other.apu.channels[0].timer_acc);
        assert_eq!(a.apu.channels[0].cursor, other.apu.channels[0].cursor);
        assert_eq!(a.apu.channels[0].sample, other.apu.channels[0].sample);
        assert_eq!(a.apu.dbg_peak, other.apu.dbg_peak);
        assert_eq!(other.sound.pending, 0);
        assert!(!other.sound.dirty);
    }
    assert_eq!(a.apu.channels[0].timer_acc, 3000 % 256);
    assert!(a.apu.dbg_peak > 0);
}
