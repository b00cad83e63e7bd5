//! The chunk and palette codec: 16x16x16 subchunks of semantic blocks,
//! serialized as paletted containers.
//!
//! Each subchunk emits its non-air count, a 4-bit indirect palette holding
//! the state ids of exactly the blocks present (in a fixed block order),
//! 256 longs of packed 4-bit palette indices (two per byte, high nibble
//! first), and a single-value biome container.

use vstd::prelude::*;

use crate::serialize::Serializer;
use vstd::seq_lib::lemma_concat_associative;
use crate::varint::varint_seq;
use crate::wire::be2;

verus! {

/// The semantic blocks this core can place.
#[derive(Clone, Copy, Debug, PartialEq, Eq, Structural)]
pub enum Block {
    Air,
    GrayConcrete,
    StairsWestTop,
    StairsWestBottom,
    StairsEastTop,
    StairsEastBottom,
}

/// The block state ids the registry resolved for each block.
#[derive(Clone, Copy, Debug, PartialEq, Eq, Structural)]
pub struct BlockIds {
    pub air: i32,
    pub gray_concrete: i32,
    pub stairs_west_top: i32,
    pub stairs_west_bottom: i32,
    pub stairs_east_top: i32,
    pub stairs_east_bottom: i32,
}

impl BlockIds {
    /// The state id of one block.
    pub open spec fn id_spec(self, b: Block) -> i32 {
        match b {
            Block::Air => self.air,
            Block::GrayConcrete => self.gray_concrete,
            Block::StairsWestTop => self.stairs_west_top,
            Block::StairsWestBottom => self.stairs_west_bottom,
            Block::StairsEastTop => self.stairs_east_top,
            Block::StairsEastBottom => self.stairs_east_bottom,
        }
    }

    pub fn id(self, b: Block) -> (r: i32)
        ensures
            r == self.id_spec(b),
    {
        match b {
            Block::Air => self.air,
            Block::GrayConcrete => self.gray_concrete,
            Block::StairsWestTop => self.stairs_west_top,
            Block::StairsWestBottom => self.stairs_west_bottom,
            Block::StairsEastTop => self.stairs_east_top,
            Block::StairsEastBottom => self.stairs_east_bottom,
        }
    }
}

/// Whether block `b` occurs in the subchunk.
pub open spec fn present(blocks: Seq<Block>, b: Block) -> bool {
    exists|i: int| 0 <= i < blocks.len() && blocks[i] == b
}

/// One if present, zero if not.
pub open spec fn pb(blocks: Seq<Block>, b: Block) -> int {
    if present(blocks, b) {
        1int
    } else {
        0int
    }
}

/// The palette index of block `b`: how many present blocks precede it in
/// the fixed block order.
pub open spec fn pal_index(blocks: Seq<Block>, b: Block) -> int {
    match b {
        Block::Air => 0,
        Block::GrayConcrete => pb(blocks, Block::Air),
        Block::StairsWestTop => pb(blocks, Block::Air) + pb(blocks, Block::GrayConcrete),
        Block::StairsWestBottom => pb(blocks, Block::Air) + pb(blocks, Block::GrayConcrete) + pb(
            blocks,
            Block::StairsWestTop,
        ),
        Block::StairsEastTop => pb(blocks, Block::Air) + pb(blocks, Block::GrayConcrete) + pb(
            blocks,
            Block::StairsWestTop,
        ) + pb(blocks, Block::StairsWestBottom),
        Block::StairsEastBottom => pb(blocks, Block::Air) + pb(blocks, Block::GrayConcrete) + pb(
            blocks,
            Block::StairsWestTop,
        ) + pb(blocks, Block::StairsWestBottom) + pb(blocks, Block::StairsEastTop),
    }
}

/// How many palette entries the subchunk has.
pub open spec fn pal_len(blocks: Seq<Block>) -> int {
    pb(blocks, Block::Air) + pb(blocks, Block::GrayConcrete) + pb(blocks, Block::StairsWestTop)
        + pb(blocks, Block::StairsWestBottom) + pb(blocks, Block::StairsEastTop) + pb(
        blocks,
        Block::StairsEastBottom,
    )
}

/// The palette entry of one block: its state id varint if present, else
/// nothing.
pub open spec fn flag_seg(p: bool, id: i32) -> Seq<u8> {
    if p {
        varint_seq(id as u32)
    } else {
        Seq::empty()
    }
}

/// The palette body: the state id varint of each present block, in the
/// fixed block order.
pub open spec fn pal_wire(blocks: Seq<Block>, ids: BlockIds) -> Seq<u8> {
    flag_seg(present(blocks, Block::Air), ids.air) + flag_seg(
        present(blocks, Block::GrayConcrete),
        ids.gray_concrete,
    ) + flag_seg(present(blocks, Block::StairsWestTop), ids.stairs_west_top) + flag_seg(
        present(blocks, Block::StairsWestBottom),
        ids.stairs_west_bottom,
    ) + flag_seg(present(blocks, Block::StairsEastTop), ids.stairs_east_top) + flag_seg(
        present(blocks, Block::StairsEastBottom),
        ids.stairs_east_bottom,
    )
}

/// The number of blocks that are not air.
pub open spec fn count_non_air(blocks: Seq<Block>) -> int
    decreases blocks.len(),
{
    if blocks.len() == 0 {
        0
    } else {
        count_non_air(blocks.skip(1)) + (if blocks[0] == Block::Air {
            0int
        } else {
            1int
        })
    }
}

proof fn lemma_count_non_air_snoc(blocks: Seq<Block>, i: int)
    requires
        0 <= i < blocks.len(),
    ensures
        count_non_air(blocks.take(i + 1)) == count_non_air(blocks.take(i)) + (if blocks[i]
            == Block::Air {
            0int
        } else {
            1int
        }),
        count_non_air(blocks.take(i + 1)) <= i + 1,
    decreases i,
{
    let a = blocks.take(i + 1);
    if i == 0 {
        assert(a.skip(1) =~= Seq::<Block>::empty());
        assert(blocks.take(0) =~= Seq::<Block>::empty());
    } else {
        lemma_count_non_air_snoc(blocks.skip(1), i - 1);
        assert(a.skip(1) =~= blocks.skip(1).take(i));
        assert(blocks.take(i).skip(1) =~= blocks.skip(1).take(i - 1));
        assert(blocks.skip(1)[i - 1] == blocks[i]);
    }
}

/// The packed index bytes: two 4-bit palette indices per byte, high nibble
/// first, in block order.
pub open spec fn packed_wire(blocks: Seq<Block>) -> Seq<u8> {
    Seq::new(
        2048,
        |i: int|
            (pal_index(blocks, blocks[2 * i]) * 16 + pal_index(blocks, blocks[2 * i + 1])) as u8,
    )
}

proof fn lemma_assemble(
    old_s: Seq<u8>,
    bs: Seq<Block>,
    ids: BlockIds,
    c0: Seq<u8>,
    c1: Seq<u8>,
    c2: Seq<u8>,
    s_final: Seq<u8>,
)
    requires
        c0 == old_s + be2(count_non_air(bs) as u16) + seq![4u8],
        c1 == c0 + varint_seq(pal_len(bs) as u32) + pal_wire(bs, ids),
        c2 == c1 + varint_seq(256) + packed_wire(bs),
        s_final == c2 + seq![0u8, 0u8, 0u8],
    ensures
        s_final == old_s + subchunk_wire(bs, ids),
{
    let a = be2(count_non_air(bs) as u16);
    let b = seq![4u8];
    let c = varint_seq(pal_len(bs) as u32);
    let dd = pal_wire(bs, ids);
    let e = varint_seq(256u32);
    let f = packed_wire(bs);
    let g = seq![0u8, 0u8, 0u8];
    lemma_concat_associative(old_s, a, b);
    lemma_concat_associative(old_s, a + b, c);
    lemma_concat_associative(old_s, a + b + c, dd);
    lemma_concat_associative(old_s, a + b + c + dd, e);
    lemma_concat_associative(old_s, a + b + c + dd + e, f);
    lemma_concat_associative(old_s, a + b + c + dd + e + f, g);
}

/// The whole paletted container of one subchunk.
pub open spec fn subchunk_wire(blocks: Seq<Block>, ids: BlockIds) -> Seq<u8> {
    be2(count_non_air(blocks) as u16) + seq![4u8] + varint_seq(pal_len(blocks) as u32) + pal_wire(
        blocks,
        ids,
    ) + varint_seq(256) + packed_wire(blocks) + seq![0u8, 0u8, 0u8]
}

/// A 16x16x16 box of blocks.
#[derive(Debug)]
pub struct Subchunk {
    blocks: Vec<Block>,
}

impl Subchunk {
    pub closed spec fn wf(&self) -> bool {
        self.blocks@.len() == 4096
    }

    /// The 4096 blocks, in index order.
    pub closed spec fn view_blocks(&self) -> Seq<Block> {
        self.blocks@
    }


    /// An all-air subchunk.
    pub fn empty() -> (r: Subchunk)
        ensures
            r.wf(),
            forall|i: int| 0 <= i < 4096 ==> r.view_blocks()[i] == Block::Air,
    {
        let mut blocks: Vec<Block> = Vec::new();
        let mut i: usize = 0;
        while i < 4096
            invariant
                i <= 4096,
                blocks@.len() == i,
                forall|j: int| 0 <= j < i ==> blocks@[j] == Block::Air,
            decreases 4096 - i,
        {
            blocks.push(Block::Air);
            i = i + 1;
        }
        Subchunk { blocks }
    }

    /// The vector index of position (x, y, z): y-major, then z, then x.
    pub open spec fn block_index_spec(x: u8, y: u8, z: u8) -> int {
        (y * 16 + z) * 16 + x
    }

    pub fn set_block(&mut self, x: u8, y: u8, z: u8, block: Block)
        requires
            old(self).wf(),
            x < 16,
            y < 16,
            z < 16,
        ensures
            final(self).wf(),
            final(self).view_blocks() == old(self).view_blocks().update(
                Subchunk::block_index_spec(x, y, z),
                block,
            ),
    {
        let index: usize = (y as usize * 16 + z as usize) * 16 + x as usize;
        self.blocks.set(index, block);
    }

    pub fn block(&self, x: u8, y: u8, z: u8) -> (r: Block)
        requires
            self.wf(),
            x < 16,
            y < 16,
            z < 16,
        ensures
            r == self.view_blocks()[Subchunk::block_index_spec(x, y, z)],
    {
        let index: usize = (y as usize * 16 + z as usize) * 16 + x as usize;
        self.blocks[index]
    }

    /// Appends this subchunk's paletted container.
    pub fn chunk_data(&self, ids: BlockIds, s: &mut Serializer)
        requires
            self.wf(),
        ensures
            final(s)@ == old(s)@ + subchunk_wire(self.view_blocks(), ids),
    {
        let ghost bs = self.blocks@;

        let count = count_blocks(&self.blocks);
        s.serialize_short(count as i16);
        proof {
            assert((count as i16) as u16 == count) by (bit_vector)
                requires
                    count <= 4096,
            ;
        }

        // Bits per entry: always the 4-bit indirect palette.
        s.serialize_ubyte(4);

        let ghost c0 = s@;
        proof {
            assert((count as i16) as u16 == count) by (bit_vector)
                requires
                    count <= 4096,
            ;
            assert(c0 == old(s)@ + be2(count_non_air(bs) as u16) + seq![4u8]);
        }
        let (p0, p1, p2, p3, p4, p5) = presence(&self.blocks);

        // Palette: the state id of each block present, in block order.
        write_palette(s, p0, p1, p2, p3, p4, p5, ids);
        let ghost c1 = s@;
        proof {
            let base = c0 + varint_seq(pal_len(bs) as u32);
            let f0 = flag_seg(p0, ids.air);
            let f1 = flag_seg(p1, ids.gray_concrete);
            let f2 = flag_seg(p2, ids.stairs_west_top);
            let f3 = flag_seg(p3, ids.stairs_west_bottom);
            let f4 = flag_seg(p4, ids.stairs_east_top);
            let f5 = flag_seg(p5, ids.stairs_east_bottom);
            lemma_concat_associative(base, f0, f1);
            lemma_concat_associative(base, f0 + f1, f2);
            lemma_concat_associative(base, f0 + f1 + f2, f3);
            lemma_concat_associative(base, f0 + f1 + f2 + f3, f4);
            lemma_concat_associative(base, f0 + f1 + f2 + f3 + f4, f5);
            assert(c1 == base + pal_wire(bs, ids));
        }

        // Packed data: 256 longs, two indices per byte.
        s.serialize_varint(256);
        pack_indices(&self.blocks, p0, p1, p2, p3, p4, s);
        let ghost c2 = s@;
        proof {
            assert(c2 == c1 + varint_seq(256) + packed_wire(bs));
        }

        // Biomes: a single-value direct palette of biome zero, no data.
        s.serialize_ubyte(0);
        s.serialize_ubyte(0);
        s.serialize_ubyte(0);
        proof {
            assert(s@ == c2 + seq![0u8] + seq![0u8] + seq![0u8]);
            assert(seq![0u8] + seq![0u8] =~= seq![0u8, 0u8]);
            assert(seq![0u8, 0u8] + seq![0u8] =~= seq![0u8, 0u8, 0u8]);
            lemma_concat_associative(c2, seq![0u8], seq![0u8]);
            lemma_concat_associative(c2, seq![0u8, 0u8], seq![0u8]);
            assert(s@ == c2 + seq![0u8, 0u8, 0u8]);
            lemma_assemble(old(s)@, bs, ids, c0, c1, c2, s@);
        }
    }
}

/// Writes the palette count and the present blocks' state ids.
fn write_palette(
    s: &mut Serializer,
    p0: bool,
    p1: bool,
    p2: bool,
    p3: bool,
    p4: bool,
    p5: bool,
    ids: BlockIds,
)
    ensures
        ({
            let n = (if p0 {
                1int
            } else {
                0int
            }) + (if p1 {
                1int
            } else {
                0int
            }) + (if p2 {
                1int
            } else {
                0int
            }) + (if p3 {
                1int
            } else {
                0int
            }) + (if p4 {
                1int
            } else {
                0int
            }) + (if p5 {
                1int
            } else {
                0int
            });
            final(s)@ == old(s)@ + varint_seq(n as u32) + flag_seg(p0, ids.air) + flag_seg(
                p1,
                ids.gray_concrete,
            ) + flag_seg(p2, ids.stairs_west_top) + flag_seg(p3, ids.stairs_west_bottom)
                + flag_seg(p4, ids.stairs_east_top) + flag_seg(p5, ids.stairs_east_bottom)
        }),
{
    let n: i32 = (if p0 {
        1
    } else {
        0
    }) + (if p1 {
        1
    } else {
        0
    }) + (if p2 {
        1
    } else {
        0
    }) + (if p3 {
        1
    } else {
        0
    }) + (if p4 {
        1
    } else {
        0
    }) + (if p5 {
        1
    } else {
        0
    });
    s.serialize_varint(n);
    let ghost d0 = s@;
    if p0 {
        s.serialize_varint(ids.air);
    }
    let ghost g0 = s@;
    proof {
        assert(g0 =~= d0 + flag_seg(p0, ids.air));
    }
    if p1 {
        s.serialize_varint(ids.gray_concrete);
    }
    let ghost g1 = s@;
    proof {
        assert(g1 =~= g0 + flag_seg(p1, ids.gray_concrete));
    }
    if p2 {
        s.serialize_varint(ids.stairs_west_top);
    }
    let ghost g2 = s@;
    proof {
        assert(g2 =~= g1 + flag_seg(p2, ids.stairs_west_top));
    }
    if p3 {
        s.serialize_varint(ids.stairs_west_bottom);
    }
    let ghost g3 = s@;
    proof {
        assert(g3 =~= g2 + flag_seg(p3, ids.stairs_west_bottom));
    }
    if p4 {
        s.serialize_varint(ids.stairs_east_top);
    }
    let ghost g4 = s@;
    proof {
        assert(g4 =~= g3 + flag_seg(p4, ids.stairs_east_top));
    }
    if p5 {
        s.serialize_varint(ids.stairs_east_bottom);
    }
    proof {
        assert(s@ =~= g4 + flag_seg(p5, ids.stairs_east_bottom));
        assert(s@ =~= d0 + flag_seg(p0, ids.air) + flag_seg(p1, ids.gray_concrete) + flag_seg(
            p2,
            ids.stairs_west_top,
        ) + flag_seg(p3, ids.stairs_west_bottom) + flag_seg(p4, ids.stairs_east_top) + flag_seg(
            p5,
            ids.stairs_east_bottom,
        ));
    }
}

/// Counts the blocks that are not air.
fn count_blocks(blocks: &Vec<Block>) -> (r: u16)
    requires
        blocks@.len() == 4096,
    ensures
        r == count_non_air(blocks@),
        r <= 4096,
{
    let ghost bs = blocks@;
    let mut count: u16 = 0;
    let mut i: usize = 0;
    while i < 4096
        invariant
            blocks@ == bs,
            bs.len() == 4096,
            i <= 4096,
            count == count_non_air(bs.take(i as int)),
            count <= i,
        decreases 4096 - i,
    {
        proof {
            lemma_count_non_air_snoc(bs, i as int);
        }
        if blocks[i] != Block::Air {
            count = count + 1;
        }
        i = i + 1;
    }
    proof {
        assert(bs.take(4096) =~= bs);
    }
    count
}

/// Which of the six blocks occur in the subchunk, in block order.
fn presence(blocks: &Vec<Block>) -> (r: (bool, bool, bool, bool, bool, bool))
    requires
        blocks@.len() == 4096,
    ensures
        r.0 == present(blocks@, Block::Air),
        r.1 == present(blocks@, Block::GrayConcrete),
        r.2 == present(blocks@, Block::StairsWestTop),
        r.3 == present(blocks@, Block::StairsWestBottom),
        r.4 == present(blocks@, Block::StairsEastTop),
        r.5 == present(blocks@, Block::StairsEastBottom),
{
    let ghost bs = blocks@;
    let mut p0 = false;
    let mut p1 = false;
    let mut p2 = false;
    let mut p3 = false;
    let mut p4 = false;
    let mut p5 = false;
    let mut j: usize = 0;
    while j < 4096
        invariant
            blocks@ == bs,
            bs.len() == 4096,
            j <= 4096,
            p0 == present(bs.take(j as int), Block::Air),
            p1 == present(bs.take(j as int), Block::GrayConcrete),
            p2 == present(bs.take(j as int), Block::StairsWestTop),
            p3 == present(bs.take(j as int), Block::StairsWestBottom),
            p4 == present(bs.take(j as int), Block::StairsEastTop),
            p5 == present(bs.take(j as int), Block::StairsEastBottom),
        decreases 4096 - j,
    {
        let b = blocks[j];
        proof {
            assert(bs.take(j + 1).take(j as int) =~= bs.take(j as int));
            assert(bs.take(j + 1)[j as int] == bs[j as int]);
            assert forall|bb: Block| #[trigger]
                present(bs.take(j + 1), bb) == (present(bs.take(j as int), bb) || bs[j as int]
                    == bb) by {
                if present(bs.take(j + 1), bb) {
                    let w = choose|w: int|
                        0 <= w < bs.take(j + 1).len() && #[trigger] bs.take(j + 1)[w] == bb;
                    if w < j {
                        assert(bs.take(j as int)[w] == bb);
                    }
                }
                if present(bs.take(j as int), bb) {
                    let w = choose|w: int|
                        0 <= w < bs.take(j as int).len() && #[trigger] bs.take(j as int)[w] == bb;
                    assert(bs.take(j + 1)[w] == bb);
                }
                if bs[j as int] == bb {
                    assert(bs.take(j + 1)[j as int] == bb);
                }
            }
        }
        match b {
            Block::Air => p0 = true,
            Block::GrayConcrete => p1 = true,
            Block::StairsWestTop => p2 = true,
            Block::StairsWestBottom => p3 = true,
            Block::StairsEastTop => p4 = true,
            Block::StairsEastBottom => p5 = true,
        }
        j = j + 1;
    }
    proof {
        assert(bs.take(4096) =~= bs);
    }
    (p0, p1, p2, p3, p4, p5)
}

/// Appends the 2048 packed index bytes.
fn pack_indices(blocks: &Vec<Block>, p0: bool, p1: bool, p2: bool, p3: bool, p4: bool, s: &mut Serializer)
    requires
        blocks@.len() == 4096,
        p0 == present(blocks@, Block::Air),
        p1 == present(blocks@, Block::GrayConcrete),
        p2 == present(blocks@, Block::StairsWestTop),
        p3 == present(blocks@, Block::StairsWestBottom),
        p4 == present(blocks@, Block::StairsEastTop),
    ensures
        final(s)@ == old(s)@ + packed_wire(blocks@),
{
    let ghost bs = blocks@;
    let i1: u8 = if p0 {
        1
    } else {
        0
    };
    let i2: u8 = i1 + (if p1 {
        1
    } else {
        0
    });
    let i3: u8 = i2 + (if p2 {
        1
    } else {
        0
    });
    let i4: u8 = i3 + (if p3 {
        1
    } else {
        0
    });
    let i5: u8 = i4 + (if p4 {
        1
    } else {
        0
    });
    let ghost mid = s@;
    let mut k: usize = 0;
    while k < 2048
        invariant
            blocks@ == bs,
            bs.len() == 4096,
            k <= 2048,
            i1 as int == pal_index(bs, Block::GrayConcrete),
            i2 as int == pal_index(bs, Block::StairsWestTop),
            i3 as int == pal_index(bs, Block::StairsWestBottom),
            i4 as int == pal_index(bs, Block::StairsEastTop),
            i5 as int == pal_index(bs, Block::StairsEastBottom),
            i1 <= 1 && i2 <= 2 && i3 <= 3 && i4 <= 4 && i5 <= 5,
            s@ == mid + packed_wire(bs).take(k as int),
        decreases 2048 - k,
    {
        let hi = match blocks[2 * k] {
            Block::Air => 0u8,
            Block::GrayConcrete => i1,
            Block::StairsWestTop => i2,
            Block::StairsWestBottom => i3,
            Block::StairsEastTop => i4,
            Block::StairsEastBottom => i5,
        };
        let lo = match blocks[2 * k + 1] {
            Block::Air => 0u8,
            Block::GrayConcrete => i1,
            Block::StairsWestTop => i2,
            Block::StairsWestBottom => i3,
            Block::StairsEastTop => i4,
            Block::StairsEastBottom => i5,
        };
        s.serialize_ubyte(hi * 16 + lo);
        proof {
            assert(hi * 16 + lo == packed_wire(bs)[k as int]);
            assert(s@ =~= mid + packed_wire(bs).take(k + 1));
        }
        k = k + 1;
    }
    proof {
        assert(packed_wire(bs).take(2048) =~= packed_wire(bs));
    }
}

/// The bytes of a whole chunk: each subchunk's container, bottom up.
pub open spec fn chunk_wire(subchunks: Seq<Seq<Block>>, ids: BlockIds) -> Seq<u8>
    decreases subchunks.len(),
{
    if subchunks.len() == 0 {
        Seq::empty()
    } else {
        subchunk_wire(subchunks[0], ids) + chunk_wire(subchunks.skip(1), ids)
    }
}

proof fn lemma_chunk_wire_snoc(subchunks: Seq<Seq<Block>>, ids: BlockIds, i: int)
    requires
        0 <= i < subchunks.len(),
    ensures
        chunk_wire(subchunks.take(i + 1), ids) == chunk_wire(subchunks.take(i), ids)
            + subchunk_wire(subchunks[i], ids),
    decreases i,
{
    let a = subchunks.take(i + 1);
    if i == 0 {
        assert(a.skip(1) =~= Seq::<Seq<Block>>::empty());
        assert(subchunks.take(0) =~= Seq::<Seq<Block>>::empty());
    } else {
        lemma_chunk_wire_snoc(subchunks.skip(1), ids, i - 1);
        assert(a.skip(1) =~= subchunks.skip(1).take(i));
        assert(subchunks.take(i).skip(1) =~= subchunks.skip(1).take(i - 1));
        assert(subchunks.skip(1)[i - 1] == subchunks[i]);
    }
    assert(chunk_wire(subchunks.take(i + 1), ids) =~= chunk_wire(subchunks.take(i), ids)
        + subchunk_wire(subchunks[i], ids));
}

/// A vertical stack of subchunks.
#[derive(Debug)]
pub struct Chunk {
    subchunks: Vec<Subchunk>,
}

impl Chunk {
    pub closed spec fn wf(&self) -> bool {
        forall|i: int| 0 <= i < self.subchunks@.len() ==> (#[trigger] self.subchunks@[i]).wf()
    }

    /// The blocks of each subchunk, bottom up.
    pub closed spec fn view_blocks(&self) -> Seq<Seq<Block>> {
        self.subchunks@.map(|i: int, sc: Subchunk| sc.view_blocks())
    }

    /// Well-formedness makes every subchunk sixteen cubed.
    pub proof fn lemma_subchunk_len(&self)
        requires
            self.wf(),
        ensures
            forall|i: int|
                0 <= i < self.view_blocks().len() ==> (#[trigger] self.view_blocks()[i]).len()
                    == 4096,
    {
    }

    /// An all-air chunk of the given number of subchunks.
    pub fn empty(subchunk_count: u8) -> (r: Chunk)
        ensures
            r.wf(),
            r.view_blocks().len() == subchunk_count,
            forall|i: int, j: int|
                0 <= i < r.view_blocks().len() && 0 <= j < 4096 ==> #[trigger] r.view_blocks()[i][j]
                    == Block::Air,
    {
        let mut subchunks: Vec<Subchunk> = Vec::new();
        let mut i: usize = 0;
        while i < subchunk_count as usize
            invariant
                i <= subchunk_count,
                subchunks@.len() == i,
                forall|j: int| 0 <= j < i ==> (#[trigger] subchunks@[j]).wf(),
                forall|j: int, k: int|
                    0 <= j < i && 0 <= k < 4096 ==> #[trigger] subchunks@[j].view_blocks()[k]
                        == Block::Air,
            decreases subchunk_count - i,
        {
            subchunks.push(Subchunk::empty());
            i = i + 1;
        }
        Chunk { subchunks }
    }

    pub fn set_block(&mut self, x: u8, y: u16, z: u8, block: Block)
        requires
            old(self).wf(),
            x < 16,
            z < 16,
            y < old(self).view_blocks().len() * 16,
        ensures
            final(self).wf(),
            final(self).view_blocks().len() == old(self).view_blocks().len(),
            final(self).view_blocks()[y as int / 16] == old(self).view_blocks()[y as int
                / 16].update(Subchunk::block_index_spec(x, (y % 16) as u8, z), block),
            forall|i: int|
                0 <= i < old(self).view_blocks().len() && i != y as int / 16
                    ==> final(self).view_blocks()[i] == old(self).view_blocks()[i],
    {
        let idx = (y / 16) as usize;
        let mut sc = self.subchunks.remove(idx);
        sc.set_block(x, (y % 16) as u8, z, block);
        self.subchunks.insert(idx, sc);
        proof {
            assert(final(self).view_blocks() =~= old(self).view_blocks().update(
                y as int / 16,
                final(self).view_blocks()[y as int / 16],
            ));
        }
    }

    pub fn block(&self, x: u8, y: u16, z: u8) -> (r: Block)
        requires
            self.wf(),
            x < 16,
            z < 16,
            y < self.view_blocks().len() * 16,
        ensures
            r == self.view_blocks()[y as int / 16][Subchunk::block_index_spec(
                x,
                (y % 16) as u8,
                z,
            )],
    {
        let sc = &self.subchunks[(y / 16) as usize];
        sc.block(x, (y % 16) as u8, z)
    }

    /// The chunk payload of a `LevelChunkWithLight`: every subchunk's
    /// paletted container, bottom up.
    pub fn chunk_data(&self, ids: BlockIds) -> (r: Vec<u8>)
        requires
            self.wf(),
        ensures
            r@ == chunk_wire(self.view_blocks(), ids),
    {
        let mut s = Serializer::new();
        let mut i: usize = 0;
        while i < self.subchunks.len()
            invariant
                self.wf(),
                i <= self.subchunks@.len(),
                s@ == chunk_wire(self.view_blocks().take(i as int), BlockIds { ..ids }),
                s@ == chunk_wire(self.view_blocks().take(i as int), ids),
            decreases self.subchunks@.len() - i,
        {
            self.subchunks[i].chunk_data(ids, &mut s);
            proof {
                lemma_chunk_wire_snoc(self.view_blocks(), ids, i as int);
            }
            i = i + 1;
        }
        proof {
            assert(self.view_blocks().take(self.view_blocks().len() as int) =~= self.view_blocks());
        }
        s.finish()
    }
}

} // verus!
