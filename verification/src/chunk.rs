//! Dense fixed-size voxel grid storage.
//!
//! A `RaytraceChunk` stores one block identifier per cell of a 64x64x64
//! grid. Identifier 0 means "empty/air"; any nonzero identifier is solid.
//! Reads outside the grid yield 0 and writes outside the grid are ignored,
//! so the traversal hot path needs no bounds branching of its own. A dirty
//! flag records that the grid has been mutated since the GPU-side mirror
//! was last synchronized.
//!
//! The whole grid can be dumped to / restored from a flat sequence of
//! big-endian 32-bit values in flat-index order (no header, no metadata);
//! the file I/O itself lives outside this crate, which only produces and
//! consumes the byte image.

use vstd::prelude::*;

verus! {

/// Cubic dimension of the grid: coordinates are in-bounds iff each axis
/// lies in [0, 64).
pub const GRID_DIM: usize = 64;

/// Total number of cells, `GRID_DIM` cubed.
pub const GRID_CELLS: usize = 262144;

/// Length in bytes of the serialized grid image: four bytes per cell.
pub const GRID_BYTES: usize = 1048576;

/// A coordinate addresses a cell iff every axis lies in [0, 64).
pub open spec fn in_bounds(x: int, y: int, z: int) -> bool {
    0 <= x < 64 && 0 <= y < 64 && 0 <= z < 64
}

/// Position of a cell in the flat backing array: `(y << 12) | (z << 6) | x`,
/// written arithmetically.
pub open spec fn flat_index(x: int, y: int, z: int) -> int {
    y * 4096 + z * 64 + x
}

/// The identifier a read at `(x, y, z)` observes: the stored cell when the
/// coordinate is in-bounds, 0 ("air") otherwise.
pub open spec fn cell_at(cells: Seq<u32>, x: int, y: int, z: int) -> u32 {
    if in_bounds(x, y, z) {
        cells[flat_index(x, y, z)]
    } else {
        0
    }
}

/// Big-endian bytes of one identifier.
pub open spec fn be_byte_0(v: u32) -> u8 {
    ((v >> 24u32) & 0xff) as u8
}

pub open spec fn be_byte_1(v: u32) -> u8 {
    ((v >> 16u32) & 0xff) as u8
}

pub open spec fn be_byte_2(v: u32) -> u8 {
    ((v >> 8u32) & 0xff) as u8
}

pub open spec fn be_byte_3(v: u32) -> u8 {
    (v & 0xff) as u8
}

/// The identifier encoded by four big-endian bytes.
pub open spec fn be_u32(b0: u8, b1: u8, b2: u8, b3: u8) -> u32 {
    (((b0 as u32) << 24u32) | ((b1 as u32) << 16u32) | ((b2 as u32) << 8u32)
        | (b3 as u32)) as u32
}

/// The serialized image of a grid: each cell's big-endian bytes, in
/// flat-index order.
pub open spec fn chunk_bytes(cells: Seq<u32>) -> Seq<u8> {
    Seq::new(
        (cells.len() * 4) as nat,
        |j: int|
            {
                let v = cells[j / 4];
                if j % 4 == 0 {
                    be_byte_0(v)
                } else if j % 4 == 1 {
                    be_byte_1(v)
                } else if j % 4 == 2 {
                    be_byte_2(v)
                } else {
                    be_byte_3(v)
                }
            },
    )
}

/// The cells encoded by a byte image (its first `GRID_BYTES` bytes).
pub open spec fn decode_cells(bytes: Seq<u8>) -> Seq<u32> {
    Seq::new(
        GRID_CELLS as nat,
        |i: int| be_u32(bytes[4 * i], bytes[4 * i + 1], bytes[4 * i + 2], bytes[4 * i + 3]),
    )
}

/// Encoding one identifier and decoding the four bytes gives it back.
pub proof fn lemma_be_u32_roundtrip(v: u32)
    ensures
        be_u32(be_byte_0(v), be_byte_1(v), be_byte_2(v), be_byte_3(v)) == v,
{
    assert(((((((v >> 24u32) & 0xff) as u8) as u32) << 24u32) | (((((v >> 16u32) & 0xff) as u8)
        as u32) << 16u32) | (((((v >> 8u32) & 0xff) as u8) as u32) << 8u32) | (((v
        & 0xff) as u8) as u32)) == v) by (bit_vector);
}

/// Serializing a grid and decoding the image reproduces every cell exactly.
pub proof fn lemma_chunk_bytes_roundtrip(cells: Seq<u32>)
    requires
        cells.len() == GRID_CELLS,
    ensures
        decode_cells(chunk_bytes(cells)) == cells,
{
    let bytes = chunk_bytes(cells);
    assert forall|i: int| 0 <= i < GRID_CELLS implies decode_cells(bytes)[i] == cells[i] by {
        assert((4 * i) / 4 == i && (4 * i) % 4 == 0);
        assert((4 * i + 1) / 4 == i && (4 * i + 1) % 4 == 1);
        assert((4 * i + 2) / 4 == i && (4 * i + 2) % 4 == 2);
        assert((4 * i + 3) / 4 == i && (4 * i + 3) % 4 == 3);
        lemma_be_u32_roundtrip(cells[i]);
    }
    assert(decode_cells(bytes) =~= cells);
}

/// Every in-bounds coordinate's flat index addresses the backing array.
pub proof fn lemma_flat_index_range(x: int, y: int, z: int)
    requires
        in_bounds(x, y, z),
    ensures
        0 <= flat_index(x, y, z) < GRID_CELLS,
{
    assert(y * 4096 <= 63 * 4096 && z * 64 <= 63 * 64 && y * 4096 >= 0 && z * 64 >= 0)
        by (nonlinear_arith)
        requires
            0 <= y <= 63 && 0 <= z <= 63,
    ;
}

/// Distinct in-bounds coordinates occupy distinct flat indices.
pub proof fn lemma_flat_index_injective(x1: int, y1: int, z1: int, x2: int, y2: int, z2: int)
    requires
        in_bounds(x1, y1, z1),
        in_bounds(x2, y2, z2),
        flat_index(x1, y1, z1) == flat_index(x2, y2, z2),
    ensures
        x1 == x2 && y1 == y2 && z1 == z2,
{
    // Flat indices are base-64 digit strings: equal indices force equal
    // digits, starting from the most significant.
    assert(y1 == y2) by {
        if y1 < y2 {
            assert(y1 * 4096 + 4096 <= y2 * 4096) by (nonlinear_arith)
                requires
                    y1 < y2,
            ;
        }
        if y2 < y1 {
            assert(y2 * 4096 + 4096 <= y1 * 4096) by (nonlinear_arith)
                requires
                    y2 < y1,
            ;
        }
    }
    assert(z1 == z2) by {
        if z1 < z2 {
            assert(z1 * 64 + 64 <= z2 * 64) by (nonlinear_arith)
                requires
                    z1 < z2,
            ;
        }
        if z2 < z1 {
            assert(z2 * 64 + 64 <= z1 * 64) by (nonlinear_arith)
                requires
                    z2 < z1,
            ;
        }
    }
}

/// Writing an in-bounds cell is observed by a read at the same coordinate
/// and by no other coordinate.
pub proof fn lemma_set_then_get(cells: Seq<u32>, x: int, y: int, z: int, id: u32)
    requires
        cells.len() == GRID_CELLS,
        in_bounds(x, y, z),
    ensures
        cell_at(cells.update(flat_index(x, y, z), id), x, y, z) == id,
        forall|x2: int, y2: int, z2: int|
            !(x2 == x && y2 == y && z2 == z) ==> cell_at(
                cells.update(flat_index(x, y, z), id),
                x2,
                y2,
                z2,
            ) == cell_at(cells, x2, y2, z2),
{
    let idx = flat_index(x, y, z);
    assert(0 <= idx < GRID_CELLS) by {
        assert(y * 4096 <= 63 * 4096 && z * 64 <= 63 * 64) by (nonlinear_arith)
            requires
                y <= 63 && z <= 63 && y >= 0 && z >= 0,
        ;
    }
    assert forall|x2: int, y2: int, z2: int|
        !(x2 == x && y2 == y && z2 == z) implies cell_at(
        cells.update(idx, id),
        x2,
        y2,
        z2,
    ) == cell_at(cells, x2, y2, z2) by {
        if in_bounds(x2, y2, z2) {
            if flat_index(x2, y2, z2) == idx {
                lemma_flat_index_injective(x2, y2, z2, x, y, z);
            }
        }
    }
}

/// The dense grid: one `u32` identifier per cell, plus the dirty flag that
/// the GPU-sync owner observes and clears.
pub struct RaytraceChunk {
    blocks: Vec<u32>,
    needs_write: bool,
}

impl View for RaytraceChunk {
    type V = Seq<u32>;

    closed spec fn view(&self) -> Seq<u32> {
        self.blocks@
    }
}

impl RaytraceChunk {
    #[verifier::type_invariant]
    spec fn wf(self) -> bool {
        self.blocks@.len() == GRID_CELLS
    }

    /// True when the grid has been mutated since the mirror was last
    /// written out.
    pub closed spec fn dirty(&self) -> bool {
        self.needs_write
    }

    /// A fresh, all-empty grid, marked dirty so the first sync uploads it.
    pub fn new() -> (chunk: Self)
        ensures
            chunk@.len() == GRID_CELLS,
            forall|i: int| 0 <= i < GRID_CELLS ==> chunk@[i] == 0,
            chunk.dirty(),
    {
        let mut blocks: Vec<u32> = Vec::new();
        while blocks.len() < GRID_CELLS
            invariant
                blocks@.len() <= GRID_CELLS,
                forall|i: int| 0 <= i < blocks@.len() ==> blocks@[i] == 0,
            decreases GRID_CELLS - blocks@.len(),
        {
            blocks.push(0);
        }
        RaytraceChunk { blocks, needs_write: true }
    }

    /// Read a cell; out-of-bounds coordinates read as 0 ("air").
    pub fn get(&self, x: i32, y: i32, z: i32) -> (id: u32)
        ensures
            id == cell_at(self@, x as int, y as int, z as int),
    {
        self.get_wide(x as i64, y as i64, z as i64)
    }

    /// `get` over the wider coordinates the traversal loop walks.
    pub(crate) fn get_wide(&self, x: i64, y: i64, z: i64) -> (id: u32)
        ensures
            id == cell_at(self@, x as int, y as int, z as int),
            id != 0 ==> in_bounds(x as int, y as int, z as int),
    {
        proof {
            use_type_invariant(self);
        }
        if x < 0 || x >= 64 || y < 0 || y >= 64 || z < 0 || z >= 64 {
            return 0;
        }
        let index = (y as usize) * 4096 + (z as usize) * 64 + (x as usize);
        self.blocks[index]
    }

    /// Write a cell and mark the grid dirty; out-of-bounds writes are
    /// silently ignored by design.
    pub fn set(&mut self, x: i32, y: i32, z: i32, id: u32)
        ensures
            in_bounds(x as int, y as int, z as int) ==> final (self)@ == old(self)@.update(
                flat_index(x as int, y as int, z as int),
                id,
            ) && final (self).dirty(),
            !in_bounds(x as int, y as int, z as int) ==> final (self)@ == old(self)@ && final (
            self).dirty() == old(self).dirty(),
    {
        proof {
            use_type_invariant(&*self);
        }
        if x < 0 || x >= 64 || y < 0 || y >= 64 || z < 0 || z >= 64 {
            return ;
        }
        let index = (y as usize) * 4096 + (z as usize) * 64 + (x as usize);
        self.blocks[index] = id;
        self.needs_write = true;
    }

    /// True when the CPU-side grid has diverged from its mirrored copy.
    pub fn is_dirty(&self) -> (b: bool)
        ensures
            b == self.dirty(),
    {
        self.needs_write
    }

    /// Called by the sync step once the mirror holds the current contents.
    pub fn mark_clean(&mut self)
        ensures
            final (self)@ == old(self)@,
            !final (self).dirty(),
    {
        proof {
            use_type_invariant(&*self);
        }
        self.needs_write = false;
    }

    /// Serialize the grid: every cell as four big-endian bytes, in
    /// flat-index order, with no header or checksum.
    pub fn to_bytes(&self) -> (out: Vec<u8>)
        ensures
            out@ == chunk_bytes(self@),
    {
        proof {
            use_type_invariant(self);
        }
        let mut out: Vec<u8> = Vec::new();
        let mut i: usize = 0;
        while i < GRID_CELLS
            invariant
                self@.len() == GRID_CELLS,
                i <= GRID_CELLS,
                out@.len() == 4 * i,
                forall|j: int| 0 <= j < 4 * i ==> out@[j] == chunk_bytes(self@)[j],
            decreases GRID_CELLS - i,
        {
            let v = self.blocks[i];
            out.push(((v >> 24u32) & 0xff) as u8);
            out.push(((v >> 16u32) & 0xff) as u8);
            out.push(((v >> 8u32) & 0xff) as u8);
            out.push((v & 0xff) as u8);
            proof {
                assert((4 * i) / 4 == i && (4 * i) % 4 == 0);
                assert((4 * i + 1) / 4 == i && (4 * i + 1) % 4 == 1);
                assert((4 * i + 2) / 4 == i && (4 * i + 2) % 4 == 2);
                assert((4 * i + 3) / 4 == i && (4 * i + 3) % 4 == 3);
            }
            i = i + 1;
        }
        assert(out@ =~= chunk_bytes(self@));
        out
    }

    /// Restore the grid from a serialized image. Succeeds iff the image
    /// holds at least `GRID_BYTES` bytes ("unexpected end of data"
    /// otherwise, leaving the grid untouched); on success the grid is
    /// marked dirty.
    pub fn load_bytes(&mut self, bytes: &[u8]) -> (r: Result<(), LoadError>)
        ensures
            r is Ok <==> bytes@.len() >= GRID_BYTES,
            r is Ok ==> final (self)@ == decode_cells(bytes@) && final (self).dirty(),
            r is Err ==> final (self)@ == old(self)@ && final (self).dirty() == old(self).dirty(),
    {
        proof {
            use_type_invariant(&*self);
        }
        if bytes.len() < GRID_BYTES {
            return Err(LoadError::UnexpectedEnd);
        }
        let mut i: usize = 0;
        while i < GRID_CELLS
            invariant
                bytes@.len() >= GRID_BYTES,
                i <= GRID_CELLS,
                self@.len() == GRID_CELLS,
                forall|k: int| 0 <= k < i ==> self@[k] == decode_cells(bytes@)[k],
            decreases GRID_CELLS - i,
        {
            let b0 = bytes[4 * i];
            let b1 = bytes[4 * i + 1];
            let b2 = bytes[4 * i + 2];
            let b3 = bytes[4 * i + 3];
            let v = ((b0 as u32) << 24u32) | ((b1 as u32) << 16u32) | ((b2 as u32) << 8u32) | (
            b3 as u32);
            self.blocks[i] = v;
            i = i + 1;
        }
        self.needs_write = true;
        proof {
            assert(self@ =~= decode_cells(bytes@));
        }
        Ok(())
    }
}

/// Why restoring a grid from a byte image failed.
#[derive(Debug, Clone, Copy, PartialEq, Eq)]
pub enum LoadError {
    /// The image ended before one identifier per cell could be read.
    UnexpectedEnd,
}

} // verus!
