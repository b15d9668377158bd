//! End-to-end tests of the stitch record decoder and the design decoder.

use dst_decode::dst::decode_dst;
use dst_decode::dst::read_dst_byte;
use dst_decode::dst::DSTStitch;
use dst_decode::model::Color;
use dst_decode::model::EmbOp;
use dst_decode::model::Point;

fn color(n: u8) -> Color {
    Color { r: n, g: n.wrapping_add(1), b: n.wrapping_add(2), a: 255 }
}

fn palette(n: u8) -> Vec<Color> {
    (0..n).map(color).collect()
}

/// A buffer of 512 zero header bytes followed by the given records.
fn buf_of(records: &[[u8; 3]]) -> Vec<u8> {
    let mut v = vec![0u8; 512];
    for r in records {
        v.extend_from_slice(r);
    }
    v
}

fn decode(records: &[[u8; 3]], ncolors: u8) -> Vec<EmbOp> {
    decode_dst(&buf_of(records), &palette(ncolors))
}

#[test]
fn empty_result_short_buffer() {
    let pal = palette(3);
    assert!(decode_dst(&[], &pal).is_empty());
    assert!(decode_dst(&[0u8; 1], &pal).is_empty());
    assert!(decode_dst(&[0u8; 511], &pal).is_empty());
}

#[test]
fn empty_result_empty_palette() {
    let buf = buf_of(&[[0x01, 0x00, 0x00], [0x00, 0x00, 0xc0]]);
    assert!(decode_dst(&buf, &[]).is_empty());
}

#[test]
fn header_only_buffer() {
    assert!(decode_dst(&[0u8; 512], &palette(2)).is_empty());
}

#[test]
fn trailing_partial_record_ignored() {
    let mut buf = buf_of(&[[0x01, 0x00, 0x00], [0x00, 0x00, 0xc0]]);
    let full = decode_dst(&buf, &palette(2));
    buf.push(0x01);
    buf.push(0x01);
    let trailing = decode_dst(&buf, &palette(2));
    assert_eq!(full.len(), 1);
    assert_eq!(trailing.len(), 1);
    assert_eq!(full[0].blocks, trailing[0].blocks);
}

#[test]
fn byte_decoder_single_bits() {
    assert_eq!(read_dst_byte(0x00), dst_decode::dst::Delta { x: 0, y: 0 });
    assert_eq!(read_dst_byte(0x01).x, 1);
    assert_eq!(read_dst_byte(0x02).x, -1);
    assert_eq!(read_dst_byte(0x04).x, 9);
    assert_eq!(read_dst_byte(0x08).x, -9);
    assert_eq!(read_dst_byte(0x80).y, 1);
    assert_eq!(read_dst_byte(0x40).y, -1);
    assert_eq!(read_dst_byte(0x20).y, 9);
    assert_eq!(read_dst_byte(0x10).y, -9);
    // All four X bits cancel to zero; same for Y.
    assert_eq!(read_dst_byte(0x0f).x, 0);
    assert_eq!(read_dst_byte(0xf0).y, 0);
}

#[test]
fn record_decoder_unit_displacements() {
    let st = DSTStitch::parse([0x01, 0x00, 0x00]);
    assert_eq!(st.dp.x, 1);
    assert_eq!(st.dp.y, 0);
    assert!(!st.jump);
    assert!(!st.stop);

    let st = DSTStitch::parse([0x81, 0x00, 0x00]);
    assert_eq!(st.dp.x, 1);
    assert_eq!(st.dp.y, 1);

    // Byte 1 carries the same bit semantics at weight three.
    let st = DSTStitch::parse([0x00, 0x01, 0x00]);
    assert_eq!(st.dp.x, 3);
    assert_eq!(st.dp.y, 0);

    // Byte 2 movement bits (2 through 5) act at weight nine: bit 2 adds
    // nine to X and bit 5 adds nine to Y, so 0x24 moves by (81, 81).
    let st = DSTStitch::parse([0x00, 0x00, 0x24]);
    assert_eq!(st.dp.x, 81);
    assert_eq!(st.dp.y, 81);
    assert!(!st.jump);
    assert!(!st.stop);
}

#[test]
fn record_decoder_flags_and_mask() {
    let st = DSTStitch::parse([0x00, 0x00, 0x80]);
    assert!(st.jump);
    assert!(!st.stop);
    assert_eq!(st.dp, dst_decode::dst::Delta { x: 0, y: 0 });

    let st = DSTStitch::parse([0x00, 0x00, 0x40]);
    assert!(!st.jump);
    assert!(st.stop);

    let st = DSTStitch::parse([0x00, 0x00, 0xc0]);
    assert!(st.jump);
    assert!(st.stop);

    // Bits 0, 1, 6 and 7 of byte 2 never contribute movement.
    let st = DSTStitch::parse([0x00, 0x00, 0xc3]);
    assert_eq!(st.dp, dst_decode::dst::Delta { x: 0, y: 0 });
}

#[test]
fn position_accumulation() {
    // Three unit stitches east, then a terminating jump+stop record.
    let ops = decode(
        &[[0x01, 0x00, 0x00], [0x01, 0x00, 0x00], [0x01, 0x00, 0x00], [0x00, 0x00, 0xc0]],
        2,
    );
    assert_eq!(ops.len(), 1);
    assert_eq!(ops[0].blocks.len(), 1);
    let block = &ops[0].blocks[0];
    assert_eq!(block.len(), 3);
    for (k, p) in block.iter().enumerate() {
        assert_eq!(*p, Point { x: k as i128 + 1, y: 0 });
        // Scaled to output units, the k-th point sits at 0.1 * (k + 1).
        assert_eq!(p.x as f32 * 0.1, (k as f32 + 1.0) * 0.1);
        assert_eq!(p.y as f32 * 0.1, 0.0);
    }
}

#[test]
fn jump_moves_position_without_point() {
    // A jump with displacement (1, 0) moves the needle but stitches
    // nothing; the next plain record stitches at the moved position.
    let ops = decode(&[[0x01, 0x00, 0x80], [0x00, 0x00, 0x00], [0x00, 0x00, 0xc0]], 2);
    assert_eq!(ops.len(), 1);
    assert_eq!(ops[0].blocks.len(), 1);
    assert_eq!(ops[0].blocks[0], vec![Point { x: 1, y: 0 }]);
}

#[test]
fn five_jumps_close_block() {
    // One stitch, five consecutive jumps, one more stitch, then stop:
    // the jump run closes the first block without ending the color, so
    // the single operation holds two blocks.
    let jump = [0x00, 0x00, 0x80];
    let ops = decode(
        &[[0x01, 0x00, 0x00], jump, jump, jump, jump, jump, [0x01, 0x00, 0x00], [
            0x00,
            0x00,
            0xc0,
        ]],
        2,
    );
    assert_eq!(ops.len(), 1);
    assert_eq!(ops[0].blocks.len(), 2);
    assert_eq!(ops[0].blocks[0], vec![Point { x: 1, y: 0 }]);
    assert_eq!(ops[0].blocks[1], vec![Point { x: 2, y: 0 }]);
}

#[test]
fn four_jumps_do_not_close_block() {
    let jump = [0x00, 0x00, 0x80];
    let ops = decode(
        &[[0x01, 0x00, 0x00], jump, jump, jump, jump, [0x01, 0x00, 0x00], [0x00, 0x00, 0xc0]],
        2,
    );
    assert_eq!(ops.len(), 1);
    assert_eq!(ops[0].blocks.len(), 1);
    assert_eq!(ops[0].blocks[0], vec![Point { x: 1, y: 0 }, Point { x: 2, y: 0 }]);
}

#[test]
fn stop_emits_op_without_jump_run() {
    // A single jump+stop record emits the open operation even though
    // the jump counter only reached one.
    let ops = decode(&[[0x01, 0x00, 0x00], [0x00, 0x00, 0xc0]], 2);
    assert_eq!(ops.len(), 1);
    assert_eq!(ops[0].color, color(0));
    assert_eq!(ops[0].blocks.len(), 1);
}

#[test]
fn stop_with_empty_op_is_discarded() {
    // A stop with nothing stitched emits nothing and keeps the color.
    let ops = decode(&[[0x00, 0x00, 0xc0]], 2);
    assert!(ops.is_empty());

    let ops = decode(&[[0x00, 0x00, 0xc0], [0x01, 0x00, 0x00], [0x00, 0x00, 0xc0]], 2);
    assert_eq!(ops.len(), 1);
    assert_eq!(ops[0].color, color(0));
}

#[test]
fn stop_without_jump_is_a_stitch() {
    // The stop flag is honored only on jump records; on a plain record
    // it stitches as usual and ends nothing.
    let ops = decode(&[[0x01, 0x00, 0x40], [0x01, 0x00, 0x00], [0x00, 0x00, 0xc0]], 2);
    assert_eq!(ops.len(), 1);
    assert_eq!(ops[0].blocks.len(), 1);
    assert_eq!(ops[0].blocks[0], vec![Point { x: 1, y: 0 }, Point { x: 2, y: 0 }]);
}

#[test]
fn color_cycling() {
    // Three stitched groups against a two-color palette: the emitted
    // colors are palette entries 0, 1 and 0 again.
    let group = [[0x01, 0x00, 0x00], [0x00, 0x00, 0xc0]];
    let mut records = Vec::new();
    records.extend_from_slice(&group);
    records.extend_from_slice(&group);
    records.extend_from_slice(&group);
    let ops = decode(&records, 2);
    assert_eq!(ops.len(), 3);
    assert_eq!(ops[0].color, color(0));
    assert_eq!(ops[1].color, color(1));
    assert_eq!(ops[2].color, color(0));
    for op in &ops {
        assert!(!op.blocks.is_empty());
        for b in &op.blocks {
            assert!(!b.is_empty());
        }
    }
}

#[test]
fn trailing_open_block_discarded() {
    // Without a terminating stop record, the open block and operation
    // are dropped, not flushed.
    let ops = decode(&[[0x01, 0x00, 0x00], [0x01, 0x00, 0x00]], 2);
    assert!(ops.is_empty());

    // A jump alone does not stop either: the high bit of byte 2 is the
    // jump flag, the stop flag is the bit below it.
    let ops = decode(&[[0x01, 0x00, 0x00], [0x00, 0x00, 0x80]], 2);
    assert!(ops.is_empty());
}

#[test]
fn round_trip_scenario() {
    // One unit stitch east, one motionless stitch, then jump+stop: one
    // operation of one block with two points at the same spot.
    let ops = decode(&[[0x01, 0x00, 0x00], [0x00, 0x00, 0x00], [0x00, 0x00, 0xc0]], 2);
    assert_eq!(ops.len(), 1);
    assert_eq!(ops[0].color, color(0));
    assert_eq!(ops[0].blocks.len(), 1);
    let block = &ops[0].blocks[0];
    assert_eq!(block.len(), 2);
    assert_eq!(block[0], Point { x: 1, y: 0 });
    assert_eq!(block[1], Point { x: 1, y: 0 });
    assert_eq!(block[0].x as f32 * 0.1, 0.1);
    assert_eq!(block[0].y as f32 * 0.1, 0.0);

    // After the stop, any further stitching lands on palette entry 1.
    let ops = decode(
        &[
            [0x01, 0x00, 0x00],
            [0x00, 0x00, 0x00],
            [0x00, 0x00, 0xc0],
            [0x02, 0x00, 0x00],
            [0x00, 0x00, 0xc0],
        ],
        2,
    );
    assert_eq!(ops.len(), 2);
    assert_eq!(ops[1].color, color(1));
}

#[test]
fn single_color_palette_cycles_to_itself() {
    let group = [[0x01, 0x00, 0x00], [0x00, 0x00, 0xc0]];
    let mut records = Vec::new();
    records.extend_from_slice(&group);
    records.extend_from_slice(&group);
    let ops = decode(&records, 1);
    assert_eq!(ops.len(), 2);
    assert_eq!(ops[0].color, color(0));
    assert_eq!(ops[1].color, color(0));
}

#[test]
fn displacement_range_extremes() {
    // All positive X bits everywhere: (1 + 9) + 3 * (1 + 9) + 9 * 9,
    // since byte 2 keeps only its nine-unit movement bits.
    let st = DSTStitch::parse([0x05, 0x05, 0x04]);
    assert_eq!(st.dp.x, 10 + 30 + 81);
    assert_eq!(st.dp.y, 0);

    let st = DSTStitch::parse([0x0a, 0x0a, 0x08]);
    assert_eq!(st.dp.x, -(10 + 30 + 81));
    assert_eq!(st.dp.y, 0);

    let st = DSTStitch::parse([0xa0, 0xa0, 0x20]);
    assert_eq!(st.dp.x, 0);
    assert_eq!(st.dp.y, 10 + 30 + 81);

    let st = DSTStitch::parse([0x50, 0x50, 0x10]);
    assert_eq!(st.dp.x, 0);
    assert_eq!(st.dp.y, -(10 + 30 + 81));
}

#[test]
fn ops_constructor_starts_empty() {
    let op = dst_decode::model::EmbOp::new(color(7));
    assert_eq!(op.color, color(7));
    assert!(op.blocks.is_empty());
}
