//! The data model of a decoded design: colors, points, blocks and
//! color-grouped operations.

use vstd::prelude::*;

verus! {

/// One palette entry, as plain 8-bit RGBA channels. The decoder never
/// inspects a color; it only copies palette entries into operations.
#[derive(Clone, Copy, Debug, PartialEq, Eq, Structural)]
pub struct Color {
    pub r: u8,
    pub g: u8,
    pub b: u8,
    pub a: u8,
}

/// An absolute stitch position in integer stitch units. Rendering scales
/// a unit down by a fixed factor of ten when converting to output
/// coordinates; the decoder itself stays in exact integer units. The
/// coordinates are wide enough that accumulating the displacements of a
/// record stream of any in-memory length cannot overflow them.
#[derive(Clone, Copy, Debug, PartialEq, Eq, Structural)]
pub struct Point {
    pub x: i128,
    pub y: i128,
}

/// One uninterrupted run of stitching for one color; insertion order is
/// rendering order.
pub type Block = Vec<Point>;

/// All stitching performed with one color before the next color change.
#[derive(Clone, Debug)]
pub struct EmbOp {
    pub color: Color,
    pub blocks: Vec<Block>,
}

/// The mathematical value of an [`EmbOp`]: its color together with its
/// blocks as sequences of points.
pub ghost struct OpModel {
    pub color: Color,
    pub blocks: Seq<Seq<Point>>,
}

impl View for EmbOp {
    type V = OpModel;

    open spec fn view(&self) -> OpModel {
        OpModel { color: self.color, blocks: self.blocks@.map_values(|b: Vec<Point>| b@) }
    }
}

impl EmbOp {
    /// A fresh operation for the given color, holding no blocks yet.
    pub fn new(col: Color) -> (op: Self)
        ensures
            op@.color == col,
            op@.blocks == Seq::<Seq<Point>>::empty(),
    {
        let op = EmbOp { color: col, blocks: Vec::new() };
        proof {
            assert(op@.blocks =~= Seq::<Seq<Point>>::empty());
        }
        op
    }
}

} // verus!
