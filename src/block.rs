//! The block catalog: the closed set of block kinds and what each kind looks
//! like and how it behaves.
use vstd::prelude::*;

verus! {

/// A kind of block. Air is not a kind: it is the absence of a block.
#[derive(Clone, Copy, Debug, PartialEq, Eq, Structural, Hash)]
pub enum Block {
    Grass,
    Dirt,
    Stone,
    Bedrock,
}

/// A block cell as handed out by the store: its kind.
#[derive(Clone, Copy, Debug, PartialEq, Eq, Structural)]
pub struct BlockWrapper {
    pub kind: Block,
}

/// One of the six axial faces of a cell. The declaration order is the order
/// in which the mesher emits the faces of a cell.
#[derive(Clone, Copy, Debug, PartialEq, Eq, Structural)]
pub enum Face {
    PosZ,
    PosX,
    NegZ,
    NegX,
    PosY,
    NegY,
}

/// A tile of the texture atlas, by column and row.
#[derive(Clone, Copy, Debug, PartialEq, Eq, Structural)]
pub struct AtlasTile {
    pub col: u32,
    pub row: u32,
}

/// Tiles per side of the square texture atlas.
pub const ATLAS_TILES: u32 = 4;

/// Every block kind stops the player.
pub open spec fn solid(kind: Block) -> bool {
    true
}

/// Every block kind hides the faces of its neighbours that touch it.
pub open spec fn opaque(kind: Block) -> bool {
    true
}

/// The atlas tile drawn on a face of a block of the given kind.
pub open spec fn tile_of(kind: Block, face: Face) -> AtlasTile {
    match kind {
        Block::Grass => match face {
            Face::PosY => AtlasTile { col: 0, row: 0 },
            Face::NegY => AtlasTile { col: 2, row: 0 },
            _ => AtlasTile { col: 1, row: 0 },
        },
        Block::Dirt => AtlasTile { col: 2, row: 0 },
        Block::Stone => AtlasTile { col: 3, row: 0 },
        Block::Bedrock => AtlasTile { col: 0, row: 1 },
    }
}

/// The face at a position of the emission order.
pub open spec fn face_at(d: int) -> Face {
    if d == 0 {
        Face::PosZ
    } else if d == 1 {
        Face::PosX
    } else if d == 2 {
        Face::NegZ
    } else if d == 3 {
        Face::NegX
    } else if d == 4 {
        Face::PosY
    } else {
        Face::NegY
    }
}

/// Whether blocks of this kind stop the player.
pub fn is_solid(kind: Block) -> (r: bool)
    ensures
        r == solid(kind),
{
    true
}

/// Whether blocks of this kind hide the faces of their neighbours.
pub fn is_opaque(kind: Block) -> (r: bool)
    ensures
        r == opaque(kind),
{
    true
}

/// The atlas tile drawn on a face of a block of the given kind.
pub fn atlas_tile(kind: Block, face: Face) -> (r: AtlasTile)
    ensures
        r == tile_of(kind, face),
        r.col < ATLAS_TILES,
        r.row < ATLAS_TILES,
{
    match kind {
        Block::Grass => match face {
            Face::PosY => AtlasTile { col: 0, row: 0 },
            Face::NegY => AtlasTile { col: 2, row: 0 },
            _ => AtlasTile { col: 1, row: 0 },
        },
        Block::Dirt => AtlasTile { col: 2, row: 0 },
        Block::Stone => AtlasTile { col: 3, row: 0 },
        Block::Bedrock => AtlasTile { col: 0, row: 1 },
    }
}

/// The face at a position of the emission order.
pub fn face_in_order(d: usize) -> (r: Face)
    requires
        d < 6,
    ensures
        r == face_at(d as int),
{
    if d == 0 {
        Face::PosZ
    } else if d == 1 {
        Face::PosX
    } else if d == 2 {
        Face::NegZ
    } else if d == 3 {
        Face::NegX
    } else if d == 4 {
        Face::PosY
    } else {
        Face::NegY
    }
}

} // verus!
