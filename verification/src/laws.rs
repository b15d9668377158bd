//! Proved laws of the design decoder: structural invariants of the
//! decode state, bounds on the emitted operations, color cycling, and
//! position accumulation.

use vstd::prelude::*;

use vstd::arithmetic::div_mod::lemma_fundamental_div_mod;
use vstd::arithmetic::div_mod::lemma_mod_multiples_vanish;

use crate::dst::cursor_at;
use crate::dst::decode_spec;
use crate::dst::num_records;
use crate::dst::rec_dx;
use crate::dst::rec_dy;
use crate::dst::rec_jump;
use crate::dst::rec_stop;
use crate::dst::step_cursor;
use crate::dst::Cursor;
use crate::model::Color;
use crate::model::OpModel;

verus! {

/// Whether record `i` of the stream carries both the jump and the stop
/// flag: only such records can emit an operation.
pub open spec fn stop_record(buf: Seq<u8>, i: int) -> bool {
    rec_jump(buf[512 + 3 * i + 2]) && rec_stop(buf[512 + 3 * i + 2])
}

/// How many of the first `n` records carry both the jump and the stop
/// flag.
pub open spec fn count_stop_records(buf: Seq<u8>, n: int) -> int
    decreases n,
{
    if n <= 0 {
        0
    } else {
        count_stop_records(buf, n - 1) + if stop_record(buf, n - 1) {
            1int
        } else {
            0int
        }
    }
}

/// The sum of the horizontal displacements of the first `n` records.
pub open spec fn sum_dx(buf: Seq<u8>, n: int) -> int
    decreases n,
{
    if n <= 0 {
        0
    } else {
        sum_dx(buf, n - 1) + rec_dx(
            buf[512 + 3 * (n - 1)],
            buf[512 + 3 * (n - 1) + 1],
            buf[512 + 3 * (n - 1) + 2],
        )
    }
}

/// The sum of the vertical displacements of the first `n` records.
pub open spec fn sum_dy(buf: Seq<u8>, n: int) -> int
    decreases n,
{
    if n <= 0 {
        0
    } else {
        sum_dy(buf, n - 1) + rec_dy(
            buf[512 + 3 * (n - 1)],
            buf[512 + 3 * (n - 1) + 1],
            buf[512 + 3 * (n - 1) + 2],
        )
    }
}

/// Structural soundness of a decode state against its palette: the
/// color index is in bounds and equals the number of emitted operations
/// modulo the palette length, the open operation carries the indexed
/// color, the emitted operations cycle through the palette in order,
/// no emitted operation is without blocks, and no closed block is empty.
pub open spec fn wf_cursor(c: Cursor, pal: Seq<Color>) -> bool {
    &&& 0 <= c.colidx < pal.len()
    &&& c.cur_color == pal[c.colidx]
    &&& c.colidx == (c.ops.len() as int) % (pal.len() as int)
    &&& (forall|j: int|
        0 <= j < c.ops.len() ==> (#[trigger] c.ops[j]).color == pal[j % (pal.len() as int)])
    &&& (forall|j: int| 0 <= j < c.ops.len() ==> (#[trigger] c.ops[j]).blocks.len() > 0)
    &&& (forall|j: int, k: int|
        0 <= j < c.ops.len() && 0 <= k < (#[trigger] c.ops[j]).blocks.len()
            ==> (#[trigger] c.ops[j].blocks[k]).len() > 0)
    &&& (forall|k: int| 0 <= k < c.cur_blocks.len() ==> (#[trigger] c.cur_blocks[k]).len() > 0)
}

/// One decoder step preserves structural soundness, moves the position
/// by exactly the record's displacement, and emits at most one
/// operation, and that only on a record with both jump and stop set.
proof fn lemma_step_wf(c: Cursor, b0: u8, b1: u8, b2: u8, pal: Seq<Color>)
    requires
        pal.len() > 0,
        wf_cursor(c, pal),
    ensures
        wf_cursor(step_cursor(c, b0, b1, b2, pal), pal),
        step_cursor(c, b0, b1, b2, pal).x == c.x + rec_dx(b0, b1, b2),
        step_cursor(c, b0, b1, b2, pal).y == c.y + rec_dy(b0, b1, b2),
        c.ops.len() <= step_cursor(c, b0, b1, b2, pal).ops.len(),
        step_cursor(c, b0, b1, b2, pal).ops.len() <= c.ops.len() + if rec_jump(b2) && rec_stop(
            b2,
        ) {
            1int
        } else {
            0int
        },
{
    let m = pal.len() as int;
    let a = c.ops.len() as int;
    let c2 = step_cursor(c, b0, b1, b2, pal);
    if rec_jump(b2) && rec_stop(b2) && c2.ops.len() > c.ops.len() {
        lemma_fundamental_div_mod(a, m);
        lemma_mod_multiples_vanish(a / m, c.colidx + 1, m);
        assert(a + 1 == m * (a / m) + (c.colidx + 1));
        assert(c2.colidx == (a + 1) % m);
        assert(forall|j: int| 0 <= j < a ==> c2.ops[j] == c.ops[j]);
    }
}

/// Every reachable decode state is structurally sound, and the number
/// of operations emitted by the first `n` records is at most the number
/// of those records that carry both the jump and the stop flag.
pub proof fn lemma_cursor_wf(buf: Seq<u8>, pal: Seq<Color>, n: int)
    requires
        pal.len() > 0,
    ensures
        wf_cursor(cursor_at(buf, pal, n), pal),
        0 <= cursor_at(buf, pal, n).ops.len() <= count_stop_records(buf, n),
        cursor_at(buf, pal, n).x == sum_dx(buf, n),
        cursor_at(buf, pal, n).y == sum_dy(buf, n),
    decreases n,
{
    if n <= 0 {
        assert((cursor_at(buf, pal, n).ops.len() as int) % (pal.len() as int) == 0) by {
            lemma_mod_multiples_vanish(0, 0, pal.len() as int);
        }
    } else {
        lemma_cursor_wf(buf, pal, n - 1);
        lemma_step_wf(
            cursor_at(buf, pal, n - 1),
            buf[512 + 3 * (n - 1)],
            buf[512 + 3 * (n - 1) + 1],
            buf[512 + 3 * (n - 1) + 2],
            pal,
        );
    }
}

/// The decoded design never holds an operation without blocks, nor an
/// empty block inside an operation.
pub proof fn lemma_no_empty_op(buf: Seq<u8>, pal: Seq<Color>)
    ensures
        forall|j: int|
            0 <= j < decode_spec(buf, pal).len()
                ==> (#[trigger] decode_spec(buf, pal)[j]).blocks.len() > 0,
        forall|j: int, k: int|
            0 <= j < decode_spec(buf, pal).len() && 0 <= k < (#[trigger] decode_spec(
                buf,
                pal,
            )[j]).blocks.len() ==> (#[trigger] decode_spec(buf, pal)[j].blocks[k]).len() > 0,
{
    if buf.len() >= 512 && pal.len() > 0 {
        lemma_cursor_wf(buf, pal, num_records(buf));
    }
}

/// The decoded design holds at most one operation per record that
/// carries both the jump and the stop flag.
pub proof fn lemma_op_count(buf: Seq<u8>, pal: Seq<Color>)
    ensures
        decode_spec(buf, pal).len() <= count_stop_records(buf, num_records(buf)),
{
    if buf.len() >= 512 && pal.len() > 0 {
        lemma_cursor_wf(buf, pal, num_records(buf));
    } else {
        lemma_count_stop_records_nonneg(buf, num_records(buf));
    }
}

/// The count of stop-flagged records is never negative.
proof fn lemma_count_stop_records_nonneg(buf: Seq<u8>, n: int)
    ensures
        0 <= count_stop_records(buf, n),
    decreases n,
{
    if n > 0 {
        lemma_count_stop_records_nonneg(buf, n - 1);
    }
}

/// Color cycling: the color of the `j`-th emitted operation is the
/// palette entry at `j` modulo the palette length, decoding having
/// started at index zero.
pub proof fn lemma_color_cycling(buf: Seq<u8>, pal: Seq<Color>)
    requires
        pal.len() > 0,
    ensures
        forall|j: int|
            0 <= j < decode_spec(buf, pal).len() ==> (#[trigger] decode_spec(buf, pal)[j]).color
                == pal[j % (pal.len() as int)],
{
    if buf.len() >= 512 {
        lemma_cursor_wf(buf, pal, num_records(buf));
    }
}

/// Position accumulation: after any number of records, the absolute
/// position is exactly the running sum of all decoded displacements,
/// regardless of how the records were classified.
pub proof fn lemma_position_accumulation(buf: Seq<u8>, pal: Seq<Color>, n: int)
    requires
        pal.len() > 0,
    ensures
        cursor_at(buf, pal, n).x == sum_dx(buf, n),
        cursor_at(buf, pal, n).y == sum_dy(buf, n),
{
    lemma_cursor_wf(buf, pal, n);
}

/// The fifth consecutive jump record closes a non-empty open block: the
/// block moves into the open operation's block list and a fresh block
/// is started, with nothing emitted to the design, even without a stop
/// flag.
pub proof fn lemma_fifth_jump_closes_block(c: Cursor, b0: u8, b1: u8, b2: u8, pal: Seq<Color>)
    requires
        rec_jump(b2),
        !rec_stop(b2),
        c.njumps == 4,
        c.cur_block.len() > 0,
    ensures
        step_cursor(c, b0, b1, b2, pal).cur_blocks == c.cur_blocks.push(c.cur_block),
        step_cursor(c, b0, b1, b2, pal).cur_block.len() == 0,
        step_cursor(c, b0, b1, b2, pal).ops == c.ops,
        step_cursor(c, b0, b1, b2, pal).njumps == 5,
{
}

/// Five consecutive jump records without stop flags, arriving while a
/// block is open and non-empty right after stitching, close that block:
/// it moves into the open operation's block list, with nothing emitted
/// to the design.
pub proof fn lemma_five_jumps_close_block(buf: Seq<u8>, pal: Seq<Color>, i: int)
    requires
        0 <= i,
        cursor_at(buf, pal, i).njumps == 0,
        cursor_at(buf, pal, i).cur_block.len() > 0,
        forall|k: int|
            i <= k < i + 5 ==> rec_jump(#[trigger] buf[512 + 3 * k + 2]) && !rec_stop(
                buf[512 + 3 * k + 2],
            ),
    ensures
        cursor_at(buf, pal, i + 5).cur_blocks == cursor_at(buf, pal, i).cur_blocks.push(
            cursor_at(buf, pal, i).cur_block,
        ),
        cursor_at(buf, pal, i + 5).cur_block.len() == 0,
        cursor_at(buf, pal, i + 5).ops == cursor_at(buf, pal, i).ops,
{
    let c0 = cursor_at(buf, pal, i);
    let c1 = cursor_at(buf, pal, i + 1);
    assert(c1.njumps == 1 && c1.cur_block == c0.cur_block && c1.cur_blocks == c0.cur_blocks
        && c1.ops == c0.ops);
    let c2 = cursor_at(buf, pal, i + 2);
    assert(c2.njumps == 2 && c2.cur_block == c0.cur_block && c2.cur_blocks == c0.cur_blocks
        && c2.ops == c0.ops);
    let c3 = cursor_at(buf, pal, i + 3);
    assert(c3.njumps == 3 && c3.cur_block == c0.cur_block && c3.cur_blocks == c0.cur_blocks
        && c3.ops == c0.ops);
    let c4 = cursor_at(buf, pal, i + 4);
    assert(c4.njumps == 4 && c4.cur_block == c0.cur_block && c4.cur_blocks == c0.cur_blocks
        && c4.ops == c0.ops);
    lemma_fifth_jump_closes_block(
        c4,
        buf[512 + 3 * (i + 4)],
        buf[512 + 3 * (i + 4) + 1],
        buf[512 + 3 * (i + 4) + 2],
        pal,
    );
}

/// A jump record with the stop flag and a non-empty open operation
/// emits that operation: it is appended to the design under its own
/// color, and a fresh operation begins under the next palette color,
/// however few jumps preceded the record.
pub proof fn lemma_stop_emits_op(c: Cursor, b0: u8, b1: u8, b2: u8, pal: Seq<Color>)
    requires
        pal.len() > 0,
        rec_jump(b2),
        rec_stop(b2),
        c.cur_blocks.len() > 0 || c.cur_block.len() > 0,
    ensures
        step_cursor(c, b0, b1, b2, pal).ops.len() == c.ops.len() + 1,
        step_cursor(c, b0, b1, b2, pal).ops.last().color == c.cur_color,
        step_cursor(c, b0, b1, b2, pal).ops.drop_last() == c.ops,
        step_cursor(c, b0, b1, b2, pal).colidx == (c.colidx + 1) % (pal.len() as int),
        step_cursor(c, b0, b1, b2, pal).cur_color == pal[(c.colidx + 1) % (pal.len() as int)],
        step_cursor(c, b0, b1, b2, pal).cur_blocks.len() == 0,
        step_cursor(c, b0, b1, b2, pal).cur_block.len() == 0,
{
    let c2 = step_cursor(c, b0, b1, b2, pal);
    assert(c2.ops.drop_last() =~= c.ops);
}

} // verus!
