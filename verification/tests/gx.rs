use nds_core::gx::{cmd_name, param_count, Completed, Coord, FrameQueue, GxDecoder, GxOp, Retain};

/// A collected vertex in fixed point.
type Point = (i32, i32);

/// Whether three points stand in the order that counts as the front face.
fn front(t: [Point; 3]) -> bool {
    let (a, b, c) = (t[0], t[1], t[2]);
    (b.0 - a.0) * (c.1 - a.1) - (b.1 - a.1) * (c.0 - a.0) > 0
}

fn fixed(c: Coord) -> i32 {
    match c {
        Coord::Fixed(v) => v,
        _ => panic!("these tests give every component"),
    }
}

/// Plays the back end with identity matrices: submits the completed triangles
/// and closes the frame at a swap.
fn flush(gx: &mut GxDecoder) {
    gx.swap_buffers(true);
    let mut points: Vec<Point> = Vec::new();
    for op in gx.engine.take_ops() {
        match op {
            GxOp::Begin => points.clear(),
            GxOp::Vertex { x, y, done, retain, attr, tex, .. } => {
                points.push((fixed(x), fixed(y)));
                let tris: Vec<[usize; 3]> = match done {
                    Completed::Zero => vec![],
                    Completed::One(a, b, c) => vec![[a, b, c]],
                    Completed::Two(a, b, c, d, e, f) => vec![[a, b, c], [d, e, f]],
                };
                for t in tris {
                    let face = front([points[t[0]], points[t[1]], points[t[2]]]);
                    gx.engine.submit_triangle(attr, tex, face, false);
                }
                match retain {
                    Retain::All => {}
                    Retain::Nothing => points.clear(),
                    Retain::LastTwo => {
                        points.drain(..points.len() - 2);
                    }
                }
            }
            GxOp::Swap { .. } => gx.engine.take_frame(),
            _ => {}
        }
    }
}

/// Whether a triangle with a given culling field enters the frame.
fn draws_with_cull(cull: u32) -> bool {
    let mut gx = GxDecoder::new();
    gx.push_port_word(0x20, 0x001F);
    gx.push_port_word(0x29, cull << 6);
    gx.push_port_word(0x40, 0);
    for w in [0xF000_F000u32, 0, 0xF000_1000, 0, 0x1000_0000, 0] {
        gx.push_port_word(0x23, w);
    }
    gx.push_port_word(0x50, 0);
    flush(&mut gx);
    gx.engine.last_frame_tris == 1
}

#[test]
fn packed_fifo_word_decodes_commands_in_order_with_params() {
    let mut gx = GxDecoder::new();
    gx.push_fifo_word(0x2015_1110);
    gx.push_fifo_word(2); // MTX_MODE param (projection)
    gx.push_fifo_word(0x7FFF); // COLOR param
    assert_eq!(
        gx.trace,
        vec![
            (0x10, vec![2]),
            (0x11, vec![]),
            (0x15, vec![]),
            (0x20, vec![0x7FFF]),
        ]
    );
    assert_eq!(gx.histo[0x10], 1);
    assert_eq!(gx.histo[0x11], 1);
    assert_eq!(gx.unknown_cmds, 0);
    gx.push_fifo_word(0x0000_0023);
    gx.push_fifo_word(0x1234_5678);
    gx.push_fifo_word(0x0000_4321);
    assert_eq!(gx.trace[4], (0x23, vec![0x1234_5678, 0x4321]));
}

#[test]
fn port_writes_accumulate_multiword_params_and_track_teximage_formats() {
    let mut gx = GxDecoder::new();
    for v in [1u32, 2, 3] {
        gx.push_port_word(0x1C, v);
    }
    assert_eq!(gx.trace, vec![(0x1C, vec![1, 2, 3])]);
    gx.push_port_word(0x11, 0xDEAD);
    gx.push_port_word(0x11, 0xBEEF);
    assert_eq!(gx.histo[0x11], 2);
    gx.push_port_word(0x2A, 3 << 26); // format 3 = 16-color palette
    assert_eq!(gx.tex_fmt_histo[3], 1);
    gx.push_port_word(0x40, 1); // quads
    assert_eq!(gx.begin_histo[1], 1);
    assert_eq!(gx.total(), 5);
}

#[test]
fn cull_mode_selects_faces() {
    assert!(!draws_with_cull(0), "mode 0 renders neither face");
    assert!(draws_with_cull(3), "mode 3 renders both faces");
    assert_ne!(
        draws_with_cull(1),
        draws_with_cull(2),
        "a single triangle faces exactly one way"
    );
}

#[test]
fn triangle_strip_keeps_every_triangle_under_culling() {
    let mut gx = GxDecoder::new();
    gx.push_port_word(0x20, 0x001F);
    gx.push_port_word(0x29, 0xC0);
    gx.push_port_word(0x40, 2); // triangle strip
    for w in [
        0xF000_F000u32, 0, 0xF000_1000, 0, 0x0000_F000, 0, 0x0000_1000, 0, 0x1000_F000, 0,
    ] {
        gx.push_port_word(0x23, w);
    }
    gx.push_port_word(0x50, 0);
    flush(&mut gx);
    assert_eq!(gx.engine.max_tris_per_frame, 3, "5 vertices = 3 triangles");
    assert_eq!(gx.engine.last_culled, 0, "cull mode 3 must keep all of them");
}

#[test]
fn quad_strip_emits_two_tris_per_pair() {
    let mut gx = GxDecoder::new();
    gx.push_port_word(0x29, 0xC0); // POLYGON_ATTR: render both faces
    gx.push_port_word(0x40, 3);
    for i in 0..6u32 {
        let x = (i / 2) * 0x0800; // 0, 0.5, 1.0
        let y = if i % 2 == 0 { 0u32 } else { 0x1000 };
        gx.push_port_word(0x23, x | (y << 16));
        gx.push_port_word(0x23, 0);
    }
    gx.push_port_word(0x50, 0);
    flush(&mut gx);
    assert_eq!(gx.engine.max_tris_per_frame, 4);
}

#[test]
fn dif_amb_bit15_sets_the_vertex_color_and_the_swap_carries_the_clear_value() {
    let mut gx = GxDecoder::new();
    gx.push_port_word(0x30, 0x8000 | 0x03E0);
    assert_eq!(gx.engine.take_ops(), vec![GxOp::Color(0x03E0)], "bit15 sets vertex color");
    gx.engine.clear_px = 0x8000 | 0x1234;
    gx.push_port_word(0x50, 0);
    assert!(gx.engine.swap_pending, "a swap waits for the memory's owner");
    gx.swap_buffers(true);
    assert!(!gx.engine.swap_pending);
    match gx.engine.take_ops()[..] {
        [GxOp::Swap { clear, raster, .. }] => {
            assert_eq!(clear, 0x9234, "swap fills with CLEAR_COLOR");
            assert!(raster);
        }
        _ => panic!("one swap"),
    }
}

#[test]
fn commands_have_a_count_exactly_where_they_have_a_name() {
    for cmd in 0..=255u8 {
        assert_eq!(param_count(cmd).is_some(), cmd_name(cmd) != "?", "command {cmd:#04x}");
    }
    assert_eq!((param_count(0x34), cmd_name(0x34)), (Some(32), "SHININESS"));
    assert_eq!((param_count(0x35), cmd_name(0x35)), (None, "?"));
    assert_eq!((0..=255u8).filter_map(param_count).max(), Some(32));
}

#[test]
fn a_frame_is_shown_once_it_is_presented() {
    for raster in [true, false] {
        let mut queue: FrameQueue<u32> = FrameQueue::new();
        let (mut back, mut front) = (1u32, 2u32);
        if let Some(frame) = queue.swap(7, raster) {
            back = frame;
        }
        assert_eq!(queue.take_front(), None, "a swap alone shows nothing new");
        assert_eq!(front, 2);
        if queue.present() {
            std::mem::swap(&mut back, &mut front);
        }
        if let Some(frame) = queue.take_front() {
            front = frame;
        }
        assert_eq!(front, 7);
        assert_eq!(back, if raster { 2 } else { 1 });
    }
}

#[test]
fn the_frame_presented_last_replaces_one_never_drawn() {
    let mut queue: FrameQueue<u32> = FrameQueue::new();
    assert_eq!(queue.swap(1, false), None);
    assert!(!queue.present());
    assert_eq!(queue.swap(2, false), None);
    assert!(!queue.present());
    assert_eq!(queue.take_front(), Some(2));
    assert_eq!(queue.swap(3, false), None);
    assert!(!queue.present());
    assert_eq!(queue.swap(4, true), Some(4));
    assert!(queue.present(), "the drawn frame takes the place of the one put off");
    assert_eq!(queue.take_front(), None);
}
