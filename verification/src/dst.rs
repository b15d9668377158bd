//! The stitch record decoder and the design decoder.
//!
//! A design file is a fixed 512-byte header followed by three-byte stitch
//! records. Each record encodes a relative displacement in a ternary
//! bit-weighted form (weights one, three and nine across the three bytes)
//! together with `jump` and `stop` control flags in the last byte.

use vstd::prelude::*;

use crate::model::Color;
use crate::model::EmbOp;
use crate::model::OpModel;
use crate::model::Point;

verus! {

/// The horizontal displacement encoded by one record byte, before
/// weighting: bit 0 adds one, bit 1 subtracts one, bit 2 adds nine,
/// bit 3 subtracts nine.
pub open spec fn byte_dx(b: u8) -> int {
    (if b & 0x01 != 0 { 1int } else { 0int })
        + (if b & 0x02 != 0 { -1int } else { 0int })
        + (if b & 0x04 != 0 { 9int } else { 0int })
        + (if b & 0x08 != 0 { -9int } else { 0int })
}

/// The vertical displacement encoded by one record byte, before
/// weighting: bit 7 adds one, bit 6 subtracts one, bit 5 adds nine,
/// bit 4 subtracts nine.
pub open spec fn byte_dy(b: u8) -> int {
    (if b & 0x80 != 0 { 1int } else { 0int })
        + (if b & 0x40 != 0 { -1int } else { 0int })
        + (if b & 0x20 != 0 { 9int } else { 0int })
        + (if b & 0x10 != 0 { -9int } else { 0int })
}

/// The per-byte displacement of one record byte.
#[derive(Clone, Copy, Debug, PartialEq, Eq, Structural)]
pub struct Delta {
    pub x: i32,
    pub y: i32,
}

/// Decodes the displacement contribution of a single record byte.
pub fn read_dst_byte(b: u8) -> (dp: Delta)
    ensures
        dp.x == byte_dx(b),
        dp.y == byte_dy(b),
{
    let mut dp = Delta { x: 0, y: 0 };
    if b & 0x01 != 0 {
        dp.x += 1;
    }
    if b & 0x02 != 0 {
        dp.x -= 1;
    }
    if b & 0x04 != 0 {
        dp.x += 9;
    }
    if b & 0x08 != 0 {
        dp.x -= 9;
    }
    if b & 0x80 != 0 {
        dp.y += 1;
    }
    if b & 0x40 != 0 {
        dp.y -= 1;
    }
    if b & 0x20 != 0 {
        dp.y += 9;
    }
    if b & 0x10 != 0 {
        dp.y -= 9;
    }
    dp
}

/// The horizontal displacement of a whole record: byte 0 at weight one,
/// byte 1 at weight three, and the movement bits of byte 2 (masked to
/// bits 2 through 5) at weight nine.
pub open spec fn rec_dx(b0: u8, b1: u8, b2: u8) -> int {
    byte_dx(b0) + 3 * byte_dx(b1) + 9 * byte_dx(b2 & 0x3c)
}

/// The vertical displacement of a whole record, weighted as [`rec_dx`].
pub open spec fn rec_dy(b0: u8, b1: u8, b2: u8) -> int {
    byte_dy(b0) + 3 * byte_dy(b1) + 9 * byte_dy(b2 & 0x3c)
}

/// Whether a record is a jump: the high bit of its last byte.
pub open spec fn rec_jump(b2: u8) -> bool {
    b2 & 0x80 != 0
}

/// Whether a record carries the stop flag: the next-highest bit of its
/// last byte.
pub open spec fn rec_stop(b2: u8) -> bool {
    b2 & 0x40 != 0
}

/// One decoded stitch record: a relative displacement plus the two
/// control flags.
#[derive(Clone, Copy, Debug, PartialEq, Eq, Structural)]
pub struct DSTStitch {
    pub dp: Delta,
    pub jump: bool,
    pub stop: bool,
}

impl DSTStitch {
    /// Decodes one three-byte record. Every input decodes to a value:
    /// malformed bytes yield degenerate geometry, never an error.
    pub fn parse(bin: [u8; 3]) -> (st: Self)
        ensures
            st.dp.x == rec_dx(bin[0], bin[1], bin[2]),
            st.dp.y == rec_dy(bin[0], bin[1], bin[2]),
            st.jump == rec_jump(bin[2]),
            st.stop == rec_stop(bin[2]),
    {
        let d0 = read_dst_byte(bin[0]);
        let d1 = read_dst_byte(bin[1]);
        let d2 = read_dst_byte(bin[2] & 0x3c);
        DSTStitch {
            dp: Delta { x: d0.x + 3 * d1.x + 9 * d2.x, y: d0.y + 3 * d1.y + 9 * d2.y },
            jump: bin[2] & 0x80 != 0,
            stop: bin[2] & 0x40 != 0,
        }
    }
}

/// The byte offset where the stitch records begin; everything before it
/// is header, skipped entirely.
pub const HEADER_LEN: usize = 512;

/// The number of whole three-byte records in a buffer; trailing bytes
/// that do not form a complete record are ignored.
pub open spec fn num_records(buf: Seq<u8>) -> int {
    if buf.len() < 512 {
        0
    } else {
        (buf.len() - 512) / 3
    }
}

/// The transient state of the design decoder while it walks the record
/// stream: absolute position, the consecutive-jump counter, the color
/// index, the finished operations, and the open operation and block.
pub ghost struct Cursor {
    /// Index into the palette of the color of the open operation.
    pub colidx: int,
    /// Absolute horizontal position: the running sum of all decoded
    /// horizontal displacements.
    pub x: int,
    /// Absolute vertical position.
    pub y: int,
    /// Operations already emitted, in stitching order.
    pub ops: Seq<OpModel>,
    /// The color of the open operation.
    pub cur_color: Color,
    /// Closed blocks of the open operation.
    pub cur_blocks: Seq<Seq<Point>>,
    /// The open block.
    pub cur_block: Seq<Point>,
    /// How many jump records have been seen since the last stitch.
    pub njumps: int,
}

/// The decoder state before any record has been processed: origin
/// position, the first palette color, and everything else empty.
pub open spec fn init_cursor(pal: Seq<Color>) -> Cursor {
    Cursor {
        colidx: 0,
        x: 0,
        y: 0,
        ops: Seq::empty(),
        cur_color: pal[0],
        cur_blocks: Seq::empty(),
        cur_block: Seq::empty(),
        njumps: 0,
    }
}

/// One step of the design decoder on the record `(b0, b1, b2)`.
///
/// The displacement always moves the absolute position. A jump record
/// bumps the jump counter; the fifth consecutive jump closes a non-empty
/// open block. A jump that also carries `stop` closes the open block and,
/// if the open operation now holds any block, emits it and advances the
/// color index cyclically; an operation without blocks is kept open under
/// its current color instead. A plain stitch record resets the jump
/// counter and appends the new absolute position to the open block.
pub open spec fn step_cursor(c: Cursor, b0: u8, b1: u8, b2: u8, pal: Seq<Color>) -> Cursor {
    let x = c.x + rec_dx(b0, b1, b2);
    let y = c.y + rec_dy(b0, b1, b2);
    if rec_jump(b2) {
        let nj = c.njumps + 1;
        let trim = nj == 5 && c.cur_block.len() > 0;
        let blocks1 = if trim {
            c.cur_blocks.push(c.cur_block)
        } else {
            c.cur_blocks
        };
        let block1 = if trim {
            Seq::<Point>::empty()
        } else {
            c.cur_block
        };
        if rec_stop(b2) {
            let blocks2 = if block1.len() > 0 {
                blocks1.push(block1)
            } else {
                blocks1
            };
            if blocks2.len() > 0 {
                let nc = (c.colidx + 1) % (pal.len() as int);
                Cursor {
                    colidx: nc,
                    x,
                    y,
                    ops: c.ops.push(OpModel { color: c.cur_color, blocks: blocks2 }),
                    cur_color: pal[nc],
                    cur_blocks: Seq::empty(),
                    cur_block: Seq::empty(),
                    njumps: nj,
                }
            } else {
                Cursor {
                    x,
                    y,
                    cur_blocks: blocks2,
                    cur_block: Seq::empty(),
                    njumps: nj,
                    ..c
                }
            }
        } else {
            Cursor { x, y, cur_blocks: blocks1, cur_block: block1, njumps: nj, ..c }
        }
    } else {
        Cursor {
            x,
            y,
            cur_block: c.cur_block.push(Point { x: x as i128, y: y as i128 }),
            njumps: 0,
            ..c
        }
    }
}

/// The decoder state after the first `n` records of the buffer.
pub open spec fn cursor_at(buf: Seq<u8>, pal: Seq<Color>, n: int) -> Cursor
    decreases n,
{
    if n <= 0 {
        init_cursor(pal)
    } else {
        step_cursor(
            cursor_at(buf, pal, n - 1),
            buf[512 + 3 * (n - 1)],
            buf[512 + 3 * (n - 1) + 1],
            buf[512 + 3 * (n - 1) + 2],
            pal,
        )
    }
}

/// The complete decode of a buffer against a palette: the operations
/// emitted after every record has been processed. A buffer shorter than
/// the header, or an empty palette, decodes to an empty design; an open
/// block or operation left at the end of the stream is discarded.
pub open spec fn decode_spec(buf: Seq<u8>, pal: Seq<Color>) -> Seq<OpModel> {
    if buf.len() < 512 || pal.len() == 0 {
        Seq::empty()
    } else {
        cursor_at(buf, pal, num_records(buf)).ops
    }
}

/// Each axis of a record's displacement spans at most ten units per
/// byte, so at most `10 + 30 + 90` units in all.
proof fn lemma_rec_bounds(b0: u8, b1: u8, b2: u8)
    ensures
        -130 <= rec_dx(b0, b1, b2) <= 130,
        -130 <= rec_dy(b0, b1, b2) <= 130,
{
}

/// Decodes a design file against a non-empty ordered color palette.
///
/// Skips the fixed-size header, walks the complete three-byte records
/// after it, and returns the color-grouped operations exactly as the
/// specification state machine [`decode_spec`] describes. A buffer
/// shorter than the header, or an empty palette, yields an empty design.
pub fn decode_dst(buf: &[u8], colors: &[Color]) -> (ops: Vec<EmbOp>)
    ensures
        ops@.map_values(|op: EmbOp| op@) == decode_spec(buf@, colors@),
        buf@.len() < 512 || colors@.len() == 0 ==> ops@.len() == 0,
{
    if buf.len() < HEADER_LEN {
        return Vec::new();
    }
    if colors.len() == 0 {
        return Vec::new();
    }

    let ncolors: usize = colors.len();
    let mut colidx: usize = 0;
    let mut x: i128 = 0;
    let mut y: i128 = 0;
    let mut ops: Vec<EmbOp> = Vec::new();
    let mut current_op: EmbOp = EmbOp::new(colors[0]);
    let mut current_block: Vec<Point> = Vec::new();
    let mut njumps: u64 = 0;

    let blen: usize = buf.len();
    let n: usize = (blen - HEADER_LEN) / 3;
    let mut i: usize = 0;
    proof {
        assert(ops@.map_values(|op: EmbOp| op@) =~= cursor_at(buf@, colors@, 0).ops);
        assert(current_op@.blocks =~= cursor_at(buf@, colors@, 0).cur_blocks);
        assert(3 * ((blen - 512) as int / 3) <= blen - 512) by (nonlinear_arith)
            requires
                blen >= 512,
        ;
    }
    while i < n
        invariant
            blen == buf@.len(),
            blen >= 512,
            ncolors == colors@.len(),
            colors@.len() > 0,
            n == (blen - 512) / 3,
            3 * (n as int) <= blen - 512,
            i <= n,
            colidx < colors@.len(),
            njumps <= i,
            ({
                let g = cursor_at(buf@, colors@, i as int);
                &&& colidx as int == g.colidx
                &&& x as int == g.x
                &&& y as int == g.y
                &&& njumps as int == g.njumps
                &&& -130 * (i as int) <= g.x <= 130 * (i as int)
                &&& -130 * (i as int) <= g.y <= 130 * (i as int)
                &&& current_op.color == g.cur_color
                &&& current_op@.blocks == g.cur_blocks
                &&& current_block@ == g.cur_block
                &&& ops@.map_values(|op: EmbOp| op@) == g.ops
            }),
        decreases n - i,
    {
        proof {
            assert(3 * (i as int) < 3 * (n as int));
        }
        let base: usize = HEADER_LEN + 3 * i;
        let stitch = DSTStitch::parse([buf[base], buf[base + 1], buf[base + 2]]);
        let ghost g = cursor_at(buf@, colors@, i as int);
        let ghost g2 = step_cursor(g, buf@[base as int], buf@[base as int + 1], buf@[base as int + 2], colors@);
        proof {
            assert(g2 == cursor_at(buf@, colors@, i as int + 1));
            lemma_rec_bounds(buf@[base as int], buf@[base as int + 1], buf@[base as int + 2]);
        }
        x = x + stitch.dp.x as i128;
        y = y + stitch.dp.y as i128;

        if stitch.jump {
            njumps = njumps + 1;
            if njumps == 5 && current_block.len() != 0 {
                current_op.blocks.push(current_block);
                current_block = Vec::new();
            }
            if stitch.stop {
                if current_block.len() != 0 {
                    current_op.blocks.push(current_block);
                    current_block = Vec::new();
                }
                if current_op.blocks.len() != 0 {
                    let ghost finished = current_op@;
                    ops.push(current_op);
                    colidx = (colidx + 1) % ncolors;
                    current_op = EmbOp::new(colors[colidx]);
                    proof {
                        assert(ops@.map_values(|op: EmbOp| op@) =~= g.ops.push(finished));
                        assert(finished.blocks =~= g2.ops.last().blocks);
                        assert(ops@.map_values(|op: EmbOp| op@) =~= g2.ops);
                        assert(current_op@.blocks =~= g2.cur_blocks);
                    }
                }
            }
        } else {
            njumps = 0;
            current_block.push(Point { x, y });
        }
        i = i + 1;
        proof {
            assert(ops@.map_values(|op: EmbOp| op@) =~= cursor_at(buf@, colors@, i as int).ops);
        }
    }
    ops
}

} // verus!
