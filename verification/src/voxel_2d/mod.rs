//! A world of blocks on a grid, drawn chunk by chunk.

use crate::gl_wrapper::ebo::EBO;
use crate::gl_wrapper::texture_2d::Texture2D;
use crate::gl_wrapper::vao::{layouts, lemma_single_attribute_fits, BufferLayout, VAO};
use crate::gl_wrapper::vbo::{VertexAttribute, VBO};
use crate::gl_wrapper::{BufferUpdateFrequency, GlCommand, GlQueue, TextureFormat, Tile};
use crate::shaders::voxel::VoxelShader;
use rand::seq::SliceRandom;
use std::collections::VecDeque;
use vstd::prelude::*;
use vstd::string::StringSliceAdditionalSpecFns;

verus! {

/// Side of a chunk, in blocks.
pub const CHUNK_SIDE: u32 = 16;

/// Number of blocks of a chunk.
pub const CHUNK_BLOCKS: usize = 256;

/// A block, known by the name of its kind.
#[derive(Copy, Clone, Debug)]
pub struct Block {
    pub id: &'static str,
}

/// Whether the two sequences of bytes are the same.
fn same_bytes(a: &[u8], b: &[u8]) -> (same: bool)
    ensures
        same == (a@ == b@),
{
    if a.len() != b.len() {
        return false;
    }
    let mut i: usize = 0;
    while i < a.len()
        invariant
            0 <= i <= a@.len(),
            a@.len() == b@.len(),
            forall|j: int| 0 <= j < i ==> a@[j] == b@[j],
        decreases a@.len() - i,
    {
        if a[i] != b[i] {
            return false;
        }
        i += 1;
    }
    proof {
        assert(a@ =~= b@);
    }
    true
}

impl Block {
    /// Whether the block is of the kind `name`.
    pub open spec fn is_named(self, name: &str) -> bool {
        self.id.spec_bytes() == name.spec_bytes()
    }

    /// Whether the block is empty space.
    pub open spec fn spec_is_air(self) -> bool {
        self.is_named("air")
    }

    /// Empty space.
    pub fn air() -> (block: Block)
        ensures
            block.spec_is_air(),
            block.id@ == "air"@,
    {
        Block { id: "air" }
    }

    /// Whether the block is empty space.
    pub fn is_air(&self) -> (air: bool)
        ensures
            air == self.spec_is_air(),
    {
        same_bytes(self.id.as_bytes(), "air".as_bytes())
    }
}

/// Where the picture of a kind of block lies in the atlas.
#[derive(Debug)]
pub struct BlockType {
    pub name: String,
    pub x: u32,
    pub y: u32,
}

/// The kinds of blocks and the atlas that holds their pictures.
#[derive(Debug)]
pub struct BlockCatalog {
    pub blocks_texture_atlas: Texture2D,
    pub block_types: Vec<BlockType>,
}

/// The place in the atlas of the last of the first `n` of `types` that is
/// called `name`, if there is one: of two kinds of one name, the later one
/// counts.
pub open spec fn spec_lookup(types: Seq<BlockType>, name: &str, n: int) -> Option<(u32, u32)>
    decreases n,
{
    if n <= 0 {
        None
    } else if vstd::utf8::encode_utf8(types[n - 1].name@) == name.spec_bytes() {
        Some((types[n - 1].x, types[n - 1].y))
    } else {
        spec_lookup(types, name, n - 1)
    }
}

impl BlockCatalog {
    /// Where the picture of the kind `name` lies in the atlas: the place of
    /// the last kind of that name.
    pub fn lookup(&self, name: &str) -> (place: Option<(u32, u32)>)
        ensures
            place == spec_lookup(self.block_types@, name, self.block_types@.len() as int),
    {
        let mut place: Option<(u32, u32)> = None;
        let mut i: usize = 0;
        while i < self.block_types.len()
            invariant
                0 <= i <= self.block_types@.len(),
                place == spec_lookup(self.block_types@, name, i as int),
            decreases self.block_types@.len() - i,
        {
            let entry = &self.block_types[i];
            if same_bytes(entry.name.as_str().as_bytes(), name.as_bytes()) {
                place = Some((entry.x, entry.y));
            }
            i += 1;
        }
        place
    }
}

/// Sixteen by sixteen blocks and what it takes to draw them.
#[derive(Debug)]
pub struct Chunk {
    pub blocks: Vec<Block>,
    pub mesh: VAO,
    pub positions: VBO,
    pub tex_coords: VBO,
    pub indices: EBO,
    pub lightmap: Texture2D,
}

/// The index of the block at (`x`, `y`) among the blocks of a chunk.
pub open spec fn block_index(x: u32, y: u32) -> int {
    y * 16 + x
}

/// The tiles of the first `n` of `blocks`: one for each block that is not
/// air, at the place of the block in the chunk, with the picture of its
/// kind.
pub open spec fn tiles_of(blocks: Seq<Block>, types: Seq<BlockType>, n: int) -> Seq<Tile>
    decreases n,
{
    if n <= 0 {
        Seq::empty()
    } else {
        let rest = tiles_of(blocks, types, n - 1);
        let block = blocks[n - 1];
        if block.spec_is_air() {
            rest
        } else {
            match spec_lookup(types, block.id, types.len() as int) {
                Some((tex_x, tex_y)) => rest.push(
                    Tile { x: ((n - 1) % 16) as u32, y: ((n - 1) / 16) as u32, tex_x, tex_y },
                ),
                None => rest,
            }
        }
    }
}

/// The indices of the corners of the first `n` tiles: two triangles per
/// tile, over the four corners of the tile.
pub open spec fn tile_indices(n: int) -> Seq<u32>
    decreases n,
{
    if n <= 0 {
        Seq::empty()
    } else {
        let i = (4 * (n - 1)) as u32;
        tile_indices(n - 1) + seq![
            i,
            (i + 1) as u32,
            (i + 2) as u32,
            (i + 2) as u32,
            (i + 3) as u32,
            i,
        ]
    }
}

proof fn lemma_tiles_bound(blocks: Seq<Block>, types: Seq<BlockType>, n: int)
    requires
        0 <= n,
    ensures
        tiles_of(blocks, types, n).len() <= n,
    decreases n,
{
    if n > 0 {
        lemma_tiles_bound(blocks, types, n - 1);
    }
}

proof fn lemma_tile_indices_len(n: int)
    requires
        0 <= n,
    ensures
        tile_indices(n).len() == 6 * n,
    decreases n,
{
    if n > 0 {
        lemma_tile_indices_len(n - 1);
    }
}

impl Chunk {
    /// The invariant of a chunk: it has sixteen by sixteen blocks.
    pub open spec fn wf(&self) -> bool {
        self.blocks@.len() == CHUNK_BLOCKS
    }

    /// The commands that create the GPU objects of a chunk in a queue whose
    /// last name is `last_name`: the buffers of positions, texture
    /// coordinates and indices, the vertex array over them, and the
    /// lightmap.
    pub open spec fn creation(last_name: u32) -> Seq<GlCommand> {
        let positions = (last_name + 1) as u32;
        let tex_coords = (last_name + 2) as u32;
        let indices = (last_name + 3) as u32;
        let lightmap = (last_name + 5) as u32;
        seq![
            GlCommand::CreateBuffer { buffer: positions },
            GlCommand::CreateBuffer { buffer: tex_coords },
            GlCommand::CreateBuffer { buffer: indices },
        ] + VAO::creation(
            (last_name + 4) as u32,
            seq![
                BufferLayout {
                    buffer: positions,
                    attributes: seq![VertexAttribute { index: 0, components: 2 }],
                },
                BufferLayout {
                    buffer: tex_coords,
                    attributes: seq![VertexAttribute { index: 1, components: 2 }],
                },
            ],
            Some(indices),
        ) + Texture2D::creation(lightmap) + seq![
            GlCommand::TextureStorage2D {
                texture: lightmap,
                levels: 1,
                format: TextureFormat::RGB,
                width: 16,
                height: 16,
            },
        ]
    }

    /// A chunk of air.
    pub fn new(gl: &mut GlQueue) -> (chunk: Chunk)
        requires
            old(gl).has_names(5),
        ensures
            chunk.wf(),
            forall|i: int| 0 <= i < CHUNK_BLOCKS ==> (#[trigger] chunk.blocks@[i]).spec_is_air(),
            chunk.positions.id == old(gl).last_name() + 1,
            chunk.tex_coords.id == old(gl).last_name() + 2,
            chunk.indices.id == old(gl).last_name() + 3,
            chunk.mesh.id == old(gl).last_name() + 4,
            chunk.lightmap.id == old(gl).last_name() + 5,
            chunk.indices.spec_len() == 0,
            final(gl).last_name() == old(gl).last_name() + 5,
            final(gl)@ == old(gl)@ + Self::creation(old(gl).last_name()),
    {
        let mut position_attributes: Vec<VertexAttribute> = Vec::new();
        position_attributes.push(VertexAttribute { index: 0, components: 2 });
        let positions = VBO::new(gl, position_attributes);
        let mut tex_coord_attributes: Vec<VertexAttribute> = Vec::new();
        tex_coord_attributes.push(VertexAttribute { index: 1, components: 2 });
        let tex_coords = VBO::new(gl, tex_coord_attributes);
        let indices = EBO::new(gl);
        let mut vbos: Vec<VBO> = Vec::new();
        vbos.push(positions);
        vbos.push(tex_coords);
        proof {
            lemma_single_attribute_fits(vbos@[0].attributes@);
            lemma_single_attribute_fits(vbos@[1].attributes@);
        }
        let mesh = VAO::new(gl, &vbos, Some(&indices));
        proof {
            assert(layouts(vbos@) =~= seq![
                BufferLayout {
                    buffer: (old(gl).last_name() + 1) as u32,
                    attributes: seq![VertexAttribute { index: 0, components: 2 }],
                },
                BufferLayout {
                    buffer: (old(gl).last_name() + 2) as u32,
                    attributes: seq![VertexAttribute { index: 1, components: 2 }],
                },
            ]);
        }
        let tex_coords = vbos.pop().unwrap();
        let positions = vbos.pop().unwrap();
        let mut lightmap = Texture2D::new(gl);
        lightmap.allocate(gl, TextureFormat::RGB, 16, 16, 1);
        let mut blocks: Vec<Block> = Vec::new();
        while blocks.len() < CHUNK_BLOCKS
            invariant
                blocks@.len() <= CHUNK_BLOCKS,
                forall|i: int| 0 <= i < blocks@.len() ==> (#[trigger] blocks@[i]).spec_is_air(),
            decreases CHUNK_BLOCKS - blocks@.len(),
        {
            blocks.push(Block::air());
        }
        proof {
            assert(gl@ =~= old(gl)@ + Self::creation(old(gl).last_name()));
        }
        Chunk { blocks, mesh, positions, tex_coords, indices, lightmap }
    }

    /// Puts `block` at (`x`, `y`).
    pub fn add_block(&mut self, x: u32, y: u32, block: Block)
        requires
            old(self).wf(),
            block_index(x, y) < CHUNK_BLOCKS,
        ensures
            final(self).wf(),
            final(self).blocks@ == old(self).blocks@.update(block_index(x, y), block),
            final(self).mesh == old(self).mesh,
            final(self).positions == old(self).positions,
            final(self).tex_coords == old(self).tex_coords,
            final(self).indices == old(self).indices,
            final(self).lightmap == old(self).lightmap,
    {
        self.blocks.set((y * 16 + x) as usize, block);
    }

    /// Puts air at (`x`, `y`).
    pub fn remove_block(&mut self, x: u32, y: u32)
        requires
            old(self).wf(),
            block_index(x, y) < CHUNK_BLOCKS,
        ensures
            final(self).wf(),
            final(self).blocks@.len() == old(self).blocks@.len(),
            final(self).blocks@[block_index(x, y)].spec_is_air(),
            forall|i: int|
                0 <= i < CHUNK_BLOCKS && i != block_index(x, y) ==> final(self).blocks@[i] == old(self).blocks@[i],
            final(self).mesh == old(self).mesh,
            final(self).positions == old(self).positions,
            final(self).tex_coords == old(self).tex_coords,
            final(self).indices == old(self).indices,
            final(self).lightmap == old(self).lightmap,
    {
        self.blocks.set((y * 16 + x) as usize, Block::air());
    }

    /// Whether the catalog knows the kind of every block of the chunk that
    /// is not air.
    pub open spec fn known(&self, catalog: &BlockCatalog) -> bool {
        forall|i: int|
            0 <= i < self.blocks@.len() && !(#[trigger] self.blocks@[i]).spec_is_air()
                ==> spec_lookup(
                catalog.block_types@,
                self.blocks@[i].id,
                catalog.block_types@.len() as int,
            ).is_some()
    }

    /// The commands that renew the mesh of a chunk: the tiles of its
    /// blocks and the indices of their corners.
    pub open spec fn mesh_commands(&self, tiles: Vec<Tile>, indices: Vec<u32>) -> Seq<GlCommand> {
        seq![
            GlCommand::BufferTiles {
                positions: self.positions.id,
                texcoords: self.tex_coords.id,
                tiles,
            },
            GlCommand::BufferData {
                buffer: self.indices.id,
                data: indices,
                usage: BufferUpdateFrequency::Never,
            },
        ]
    }

    /// Renews the mesh of the chunk from its blocks: one tile for each
    /// block that is not air, row after row, with the picture that the
    /// catalog has for the kind of the block.
    pub fn regen_mesh(&mut self, gl: &mut GlQueue, block_catalog: &BlockCatalog)
        requires
            old(self).wf(),
            old(self).known(block_catalog),
        ensures
            final(self).wf(),
            final(self).blocks == old(self).blocks,
            final(self).mesh == old(self).mesh,
            final(self).lightmap == old(self).lightmap,
            final(self).positions.id == old(self).positions.id,
            final(self).tex_coords.id == old(self).tex_coords.id,
            final(self).indices.id == old(self).indices.id,
            final(self).positions.spec_len() == 8 * tiles_of(
                old(self).blocks@,
                block_catalog.block_types@,
                CHUNK_BLOCKS as int,
            ).len(),
            final(self).tex_coords.spec_len() == final(self).positions.spec_len(),
            final(self).indices.spec_len() == 6 * tiles_of(
                old(self).blocks@,
                block_catalog.block_types@,
                CHUNK_BLOCKS as int,
            ).len(),
            final(gl).last_name() == old(gl).last_name(),
            exists|tiles: Vec<Tile>, indices: Vec<u32>|
                tiles@ == tiles_of(
                    old(self).blocks@,
                    block_catalog.block_types@,
                    CHUNK_BLOCKS as int,
                ) && indices@ == tile_indices(tiles@.len() as int) && final(gl)@ == old(gl)@
                    + #[trigger] old(self).mesh_commands(tiles, indices),
    {
        let mut tiles: Vec<Tile> = Vec::new();
        let mut vec_indices: Vec<u32> = Vec::new();
        let mut i: u32 = 0;
        let mut n: usize = 0;
        while n < CHUNK_BLOCKS
            invariant
                0 <= n <= CHUNK_BLOCKS,
                self.wf(),
                *self == *old(self),
                self.known(block_catalog),
                i == tiles@.len(),
                i <= n,
                tiles@ == tiles_of(self.blocks@, block_catalog.block_types@, n as int),
                vec_indices@ == tile_indices(i as int),
            decreases CHUNK_BLOCKS - n,
        {
            let block = &self.blocks[n];
            if !block.is_air() {
                match block_catalog.lookup(block.id) {
                    Some((tex_x, tex_y)) => {
                        let x = (n % 16) as u32;
                        let y = (n / 16) as u32;
                        tiles.push(Tile { x, y, tex_x, tex_y });
                        let first = i * 4;
                        vec_indices.push(first);
                        vec_indices.push(first + 1);
                        vec_indices.push(first + 2);
                        vec_indices.push(first + 2);
                        vec_indices.push(first + 3);
                        vec_indices.push(first);
                        i += 1;
                        proof {
                            assert(vec_indices@ =~= tile_indices(i as int));
                        }
                    },
                    None => {},
                }
            }
            n += 1;
        }
        let ghost tile_list = tiles;
        let ghost index_list = vec_indices;
        proof {
            lemma_tile_indices_len(i as int);
        }
        let tile_count = tiles.len();
        self.positions.length = 8 * tile_count;
        self.tex_coords.length = 8 * tile_count;
        gl.push(
            GlCommand::BufferTiles {
                positions: self.positions.id,
                texcoords: self.tex_coords.id,
                tiles,
            },
        );
        self.indices.with(gl, vec_indices, BufferUpdateFrequency::Never);
        proof {
            assert(gl@ =~= old(gl)@ + old(self).mesh_commands(tile_list, index_list));
        }
    }
}

/// The picture of a kind of block: sixteen by sixteen texels of red, green,
/// blue and alpha.
#[derive(Debug)]
pub struct BlockImage {
    pub name: String,
    pub width: u32,
    pub height: u32,
    pub pixels: Vec<u8>,
}

/// Number of pictures that an atlas has room for.
pub const ATLAS_CAPACITY: usize = 64;

/// The column of the atlas, in texels, that the picture at place `k` goes
/// to: pictures fill a row from left to right.
pub open spec fn atlas_x(k: int) -> int {
    (16 * k) % 128
}

/// The row of the atlas, in texels, that the picture at place `k` goes to.
pub open spec fn atlas_y(k: int) -> int {
    16 * ((16 * k) / 128)
}

/// No two pictures share a place: while the atlas has room, pictures at
/// different places in the order go to different places in the atlas, each
/// on the grid of sixteen texels and within the atlas.
pub proof fn law_atlas_places_differ(j: int, k: int)
    requires
        0 <= j < k < ATLAS_CAPACITY,
    ensures
        (atlas_x(j), atlas_y(j)) != (atlas_x(k), atlas_y(k)),
        atlas_x(k) % 16 == 0 && atlas_y(k) % 16 == 0,
        0 <= atlas_x(k) < 128 && 0 <= atlas_y(k) < 128,
{
}

/// The commands that copy the first `n` of `images` into the atlas
/// `atlas`, each to its place.
pub open spec fn atlas_uploads(atlas: u32, images: Seq<BlockImage>, n: int) -> Seq<GlCommand>
    decreases n,
{
    if n <= 0 {
        Seq::empty()
    } else {
        atlas_uploads(atlas, images, n - 1) + Texture2D::upload(
            atlas,
            TextureFormat::RGBA,
            atlas_x(n - 1) as u32,
            atlas_y(n - 1) as u32,
            images[n - 1].width,
            images[n - 1].height,
            images[n - 1].pixels,
        )
    }
}

/// The commands that create the atlas `atlas`, without pictures.
pub open spec fn atlas_creation(atlas: u32) -> Seq<GlCommand> {
    Texture2D::creation(atlas).push(
        GlCommand::TextureStorage2D {
            texture: atlas,
            levels: 1,
            format: TextureFormat::RGBA,
            width: 128,
            height: 128,
        },
    )
}

/// Builds the catalog of the kinds of blocks.
#[derive(Clone, Copy, Debug, Default)]
pub struct ResourceManager;

impl ResourceManager {
    /// Puts the pictures of the kinds of blocks into one atlas, in the
    /// order given, row after row from the left, and notes where each went.
    ///
    /// The atlas has room for 64 pictures, and no picture is ever left out
    /// or put over another: whoever calls has to make sure that there are
    /// no more.
    pub fn gen_blocks_texture_atlas(gl: &mut GlQueue, images: Vec<BlockImage>) -> (catalog:
        BlockCatalog)
        requires
            old(gl).has_names(1),
            images@.len() <= ATLAS_CAPACITY,
        ensures
            final(gl).last_name() == old(gl).last_name() + 1,
            final(gl)@ == old(gl)@ + atlas_creation((old(gl).last_name() + 1) as u32)
                + atlas_uploads((old(gl).last_name() + 1) as u32, images@, images@.len() as int),
            catalog.blocks_texture_atlas.id == old(gl).last_name() + 1,
            catalog.blocks_texture_atlas.format == TextureFormat::RGBA,
            catalog.block_types@.len() == images@.len(),
            forall|k: int|
                0 <= k < images@.len() ==> {
                    &&& (#[trigger] catalog.block_types@[k]).name == images@[k].name
                    &&& catalog.block_types@[k].x == atlas_x(k)
                    &&& catalog.block_types@[k].y == atlas_y(k)
                    &&& catalog.block_types@[k].x % 16 == 0
                    &&& catalog.block_types@[k].y % 16 == 0
                    &&& catalog.block_types@[k].x < 128
                    &&& catalog.block_types@[k].y < 128
                },
    {
        let mut atlas = Texture2D::new(gl);
        let atlas_width: u32 = 128;
        let atlas_height: u32 = 128;
        atlas.allocate(gl, TextureFormat::RGBA, atlas_width, atlas_height, 1);
        let ghost created = gl@;
        proof {
            assert(created =~= old(gl)@ + atlas_creation(atlas.id));
        }
        let mut blocks: Vec<BlockType> = Vec::new();
        let ghost all = images@;
        let mut pending = images;
        let mut rest: Vec<BlockImage> = Vec::new();
        // the pictures leave `pending` from its end: turn them round first
        while pending.len() > 0
            invariant
                pending@.len() + rest@.len() == all.len(),
                forall|i: int| 0 <= i < pending@.len() ==> pending@[i] == all[i],
                forall|i: int| 0 <= i < rest@.len() ==> rest@[i] == all[all.len() - 1 - i],
            decreases pending@.len(),
        {
            let image = pending.pop().unwrap();
            rest.push(image);
        }
        let mut x: u32 = 0;
        let mut y: u32 = 0;
        let mut k: usize = 0;
        while rest.len() > 0
            invariant
                all == images@,
                k + rest@.len() == all.len(),
                forall|i: int| 0 <= i < rest@.len() ==> rest@[i] == all[all.len() - 1 - i],
                all.len() <= ATLAS_CAPACITY,
                x == atlas_x(k as int),
                y == atlas_y(k as int),
                atlas_width == 128,
                atlas_height == 128,
                atlas.id == old(gl).last_name() + 1,
                atlas.format == TextureFormat::RGBA,
                gl.last_name() == old(gl).last_name() + 1,
                created == old(gl)@ + atlas_creation(atlas.id),
                gl@ == created + atlas_uploads(atlas.id, all, k as int),
                blocks@.len() == k,
                forall|j: int|
                    0 <= j < k ==> {
                        &&& (#[trigger] blocks@[j]).name == all[j].name
                        &&& blocks@[j].x == atlas_x(j)
                        &&& blocks@[j].y == atlas_y(j)
                    },
            decreases rest@.len(),
        {
            let image = rest.pop().unwrap();

            // Update atlas
            atlas.update(gl, x, y, image.width, image.height, image.pixels);

            // Save name and texture coordinates
            let ghost before = blocks@;
            blocks.push(BlockType { name: image.name, x, y });
            x += 16;
            if x / atlas_width > 0 {
                x %= atlas_width;
                y += 16;
            }
            k += 1;
            proof {
                assert(gl@ =~= created + atlas_uploads(atlas.id, all, k as int));
                assert forall|j: int| 0 <= j < k implies {
                    &&& (#[trigger] blocks@[j]).name == all[j].name
                    &&& blocks@[j].x == atlas_x(j)
                    &&& blocks@[j].y == atlas_y(j)
                } by {
                    if j < k - 1 {
                        assert(blocks@[j] == before[j]);
                    }
                }
            }
        }
        BlockCatalog { blocks_texture_atlas: atlas, block_types: blocks }
    }
}

/// The coordinates of a chunk and the chunk.
#[derive(Debug)]
pub struct ChunkEntry {
    pub coords: (i32, i32),
    pub chunk: Chunk,
}

/// A world made of chunks.
#[derive(Debug)]
pub struct VoxelWorld {
    pub chunk_size: (u32, u32),
    pub chunks: Vec<ChunkEntry>,
    /// The coordinates of the chunks whose mesh is out of date, in the
    /// order in which they were touched.
    pub dirty_chunks: VecDeque<(i32, i32)>,
}

/// The place of the first of the first `n` of `chunks` that lies at
/// `coords`, if there is one.
pub open spec fn chunk_at(chunks: Seq<ChunkEntry>, coords: (i32, i32), n: int) -> Option<int>
    decreases n,
{
    if n <= 0 {
        None
    } else {
        match chunk_at(chunks, coords, n - 1) {
            Some(found) => Some(found),
            None => if chunks[n - 1].coords == coords {
                Some(n - 1)
            } else {
                None
            },
        }
    }
}

proof fn lemma_chunk_at(chunks: Seq<ChunkEntry>, coords: (i32, i32), n: int)
    requires
        0 <= n <= chunks.len(),
    ensures
        match chunk_at(chunks, coords, n) {
            Some(found) => 0 <= found < n && chunks[found].coords == coords,
            None => forall|i: int| 0 <= i < n ==> (#[trigger] chunks[i]).coords != coords,
        },
    decreases n,
{
    if n > 0 {
        lemma_chunk_at(chunks, coords, n - 1);
    }
}

proof fn lemma_chunk_at_stays(chunks: Seq<ChunkEntry>, coords: (i32, i32), found_by: int, n: int)
    requires
        0 <= found_by <= n,
        chunk_at(chunks, coords, found_by).is_some(),
    ensures
        chunk_at(chunks, coords, n) == chunk_at(chunks, coords, found_by),
    decreases n - found_by,
{
    if found_by < n {
        lemma_chunk_at_stays(chunks, coords, found_by, n - 1);
    }
}

/// The coordinate of the chunk that holds the block coordinate `x`, for
/// chunks of `size` blocks: `x` divided by `size`, rounded towards zero.
pub open spec fn chunk_coord(x: i32, size: u32) -> i32 {
    if x >= 0 {
        ((x as int) / (size as int)) as i32
    } else {
        (-((-(x as int)) / (size as int))) as i32
    }
}

/// What the division of `x` by `size`, rounded towards zero, leaves over:
/// nothing or a number with the sign of `x`.
pub open spec fn block_offset(x: i32, size: u32) -> int {
    if x >= 0 {
        (x as int) % (size as int)
    } else {
        -((-(x as int)) % (size as int))
    }
}

/// The coordinate within its chunk of the block coordinate `x`, for chunks
/// of `size` blocks: what the division leaves over, as an unsigned number
/// of 32 bits. Where `x` is negative and not a multiple of `size`, that is
/// a number beyond every chunk.
pub open spec fn block_coord(x: i32, size: u32) -> u32 {
    let offset = block_offset(x, size);
    if offset >= 0 {
        offset as u32
    } else {
        (offset + 0x1_0000_0000) as u32
    }
}

/// Divides the block coordinate `x` by `size`, rounding towards zero, and
/// hands back the quotient and what is left over.
fn split_coord(x: i32, size: u32) -> (parts: (i32, u32))
    requires
        0 < size <= i32::MAX,
    ensures
        parts.0 == chunk_coord(x, size),
        parts.1 == block_coord(x, size),
{
    let divisor = size as i32;
    proof {
        let a = if x >= 0 {
            x as int
        } else {
            -(x as int)
        };
        vstd::arithmetic::div_mod::lemma_div_pos_is_pos(a, size as int);
        vstd::arithmetic::div_mod::lemma_div_is_ordered_by_denominator(a, 1, size as int);
        vstd::arithmetic::div_mod::lemma_mod_bound(a, size as int);
    }
    let quotient = match x.checked_div(divisor) {
        Some(quotient) => quotient,
        None => 0,
    };
    let left_over = match x.checked_rem(divisor) {
        Some(left_over) => left_over,
        None => 0,
    };
    proof {
        assert(0int % (size as int) == 0) by {
            vstd::arithmetic::div_mod::lemma_small_mod(0, size as nat);
        }
        assert(x < 0 ==> (x * -1) == -(x as int));
        assert(left_over == block_offset(x, size));
    }
    let within = if left_over >= 0 {
        left_over as u32
    } else {
        u32::MAX - ((-(left_over + 1)) as u32)
    };
    (quotient, within)
}

impl VoxelWorld {
    /// The invariant of the world: chunks have a size that blocks can be
    /// counted in, every chunk keeps its own invariant, and no two chunks
    /// lie at the same coordinates.
    pub open spec fn wf(&self) -> bool {
        &&& 0 < self.chunk_size.0 <= i32::MAX
        &&& 0 < self.chunk_size.1 <= i32::MAX
        &&& forall|i: int| 0 <= i < self.chunks@.len() ==> (#[trigger] self.chunks@[i]).chunk.wf()
        &&& forall|i: int, j: int|
            0 <= i < j < self.chunks@.len() ==> (#[trigger] self.chunks@[i]).coords != (
            #[trigger] self.chunks@[j]).coords
    }

    /// The place of the chunk at `coords` among the chunks, if the world
    /// has one there.
    pub open spec fn spec_find(&self, coords: (i32, i32)) -> Option<int> {
        chunk_at(self.chunks@, coords, self.chunks@.len() as int)
    }

    /// A world without chunks.
    pub fn new(chunk_size: (u32, u32)) -> (world: VoxelWorld)
        ensures
            world.chunk_size == chunk_size,
            world.chunks@ == Seq::<ChunkEntry>::empty(),
            world.dirty_chunks@ == Seq::<(i32, i32)>::empty(),
    {
        VoxelWorld { chunk_size, chunks: Vec::new(), dirty_chunks: VecDeque::new() }
    }

    /// The chunk that the block at (`x`, `y`) lies in, and the place of the
    /// block in its chunk: see [`chunk_coord`] and [`block_coord`].
    pub fn get_chunk_and_block_coords(&self, x: i32, y: i32) -> (coords: (i32, i32, u32, u32))
        requires
            self.wf(),
        ensures
            coords.0 == chunk_coord(x, self.chunk_size.0),
            coords.1 == chunk_coord(y, self.chunk_size.1),
            coords.2 == block_coord(x, self.chunk_size.0),
            coords.3 == block_coord(y, self.chunk_size.1),
    {
        let (x_chunk, x_block) = split_coord(x, self.chunk_size.0);
        let (y_chunk, y_block) = split_coord(y, self.chunk_size.1);
        (x_chunk, y_chunk, x_block, y_block)
    }

    /// The place of the chunk at `coords` among the chunks.
    pub fn find(&self, coords: (i32, i32)) -> (place: Option<usize>)
        ensures
            match place {
                Some(place) => self.spec_find(coords) == Some(place as int) && place
                    < self.chunks@.len() && self.chunks@[place as int].coords == coords,
                None => self.spec_find(coords).is_none(),
            },
    {
        let mut i: usize = 0;
        while i < self.chunks.len()
            invariant
                0 <= i <= self.chunks@.len(),
                chunk_at(self.chunks@, coords, i as int).is_none(),
            decreases self.chunks@.len() - i,
        {
            if self.chunks[i].coords.0 == coords.0 && self.chunks[i].coords.1 == coords.1 {
                proof {
                    lemma_chunk_at_stays(
                        self.chunks@,
                        coords,
                        i as int + 1,
                        self.chunks@.len() as int,
                    );
                }
                return Some(i);
            }
            i += 1;
        }
        None
    }

    /// Whether a block can be put at (`x`, `y`): whether the world has the
    /// chunk that the place lies in, and the place lies among the sixteen by
    /// sixteen blocks of the chunk.
    pub open spec fn can_place(&self, x: i32, y: i32) -> bool {
        &&& self.spec_find((
            chunk_coord(x, self.chunk_size.0),
            chunk_coord(y, self.chunk_size.1),
        )).is_some()
        &&& block_index(block_coord(x, self.chunk_size.0), block_coord(y, self.chunk_size.1))
            < CHUNK_BLOCKS
    }

    /// Takes the chunk at `place` out of the list, lets `block` or air into
    /// it, and puts it back.
    fn set_block(&mut self, place: usize, x_block: u32, y_block: u32, block: Option<Block>)
        requires
            old(self).wf(),
            place < old(self).chunks@.len(),
            block_index(x_block, y_block) < CHUNK_BLOCKS,
        ensures
            final(self).wf(),
            final(self).chunk_size == old(self).chunk_size,
            final(self).dirty_chunks == old(self).dirty_chunks,
            final(self).chunks@.len() == old(self).chunks@.len(),
            forall|i: int|
                0 <= i < old(self).chunks@.len() && i != place ==> final(self).chunks@[i] == old(self).chunks@[i],
            final(self).chunks@[place as int].coords == old(self).chunks@[place as int].coords,
            final(self).chunks@[place as int].chunk.blocks@.len() == CHUNK_BLOCKS,
            match block {
                Some(block) => final(self).chunks@[place as int].chunk.blocks@ == old(self).chunks@[place as int].chunk.blocks@.update(block_index(x_block, y_block), block),
                None => {
                    &&& final(self).chunks@[place as int].chunk.blocks@[block_index(
                        x_block,
                        y_block,
                    )].spec_is_air()
                    &&& forall|i: int|
                        0 <= i < CHUNK_BLOCKS && i != block_index(x_block, y_block) ==> final(self).chunks@[place as int].chunk.blocks@[i] == old(self).chunks@[place as int].chunk.blocks@[i]
                },
            },
    {
        let ghost before = self.chunks@;
        // swap the entry out, change it, swap it back
        let last = self.chunks.len() - 1;
        let mut entry = self.chunks.swap_remove(place);
        match block {
            Some(block) => entry.chunk.add_block(x_block, y_block, block),
            None => entry.chunk.remove_block(x_block, y_block),
        }
        self.chunks.push(entry);
        let moved = self.chunks.swap_remove(place);
        if place < last {
            self.chunks.push(moved);
        } else {
            self.chunks.push(moved);
        }
        proof {
            assert(self.chunks@.len() == before.len());
            assert forall|i: int| 0 <= i < before.len() && i != place implies self.chunks@[i]
                == before[i] by {
            }
        }
    }

    /// Puts `block` at (`x`, `y`) and notes that the mesh of the chunk is
    /// out of date.
    pub fn add_block(&mut self, x: i32, y: i32, block: Block)
        requires
            old(self).wf(),
            old(self).can_place(x, y),
        ensures
            final(self).wf(),
            final(self).chunk_size == old(self).chunk_size,
            final(self).chunks@.len() == old(self).chunks@.len(),
            ({
                let coords = (
                    chunk_coord(x, old(self).chunk_size.0),
                    chunk_coord(y, old(self).chunk_size.1),
                );
                let place = old(self).spec_find(coords)->0;
                let at = block_index(
                    block_coord(x, old(self).chunk_size.0),
                    block_coord(y, old(self).chunk_size.1),
                );
                &&& final(self).dirty_chunks@ == old(self).dirty_chunks@.push(coords)
                &&& final(self).chunks@[place].chunk.blocks@ == old(self).chunks@[place].chunk.blocks@.update(at, block)
                &&& forall|i: int|
                    0 <= i < old(self).chunks@.len() && i != place ==> final(self).chunks@[i]
                        == old(self).chunks@[i]
            }),
    {
        let (x_chunk, y_chunk, x_block, y_block) = self.get_chunk_and_block_coords(x, y);
        match self.find((x_chunk, y_chunk)) {
            Some(place) => {
                self.set_block(place, x_block, y_block, Some(block));
                // Invalidate chunk
                self.dirty_chunks.push_back((x_chunk, y_chunk));
            },
            None => {},
        }
    }

    /// Puts air at (`x`, `y`) and notes that the mesh of the chunk is out
    /// of date.
    pub fn remove_block(&mut self, x: i32, y: i32)
        requires
            old(self).wf(),
            old(self).can_place(x, y),
        ensures
            final(self).wf(),
            final(self).chunk_size == old(self).chunk_size,
            final(self).chunks@.len() == old(self).chunks@.len(),
            ({
                let coords = (
                    chunk_coord(x, old(self).chunk_size.0),
                    chunk_coord(y, old(self).chunk_size.1),
                );
                let place = old(self).spec_find(coords)->0;
                let at = block_index(
                    block_coord(x, old(self).chunk_size.0),
                    block_coord(y, old(self).chunk_size.1),
                );
                &&& final(self).dirty_chunks@ == old(self).dirty_chunks@.push(coords)
                &&& final(self).chunks@[place].chunk.blocks@[at].spec_is_air()
                &&& forall|i: int|
                    0 <= i < CHUNK_BLOCKS && i != at ==> final(self).chunks@[place].chunk.blocks@[i]
                        == old(self).chunks@[place].chunk.blocks@[i]
                &&& forall|i: int|
                    0 <= i < old(self).chunks@.len() && i != place ==> final(self).chunks@[i]
                        == old(self).chunks@[i]
            }),
    {
        let (x_chunk, y_chunk, x_block, y_block) = self.get_chunk_and_block_coords(x, y);
        match self.find((x_chunk, y_chunk)) {
            Some(place) => {
                self.set_block(place, x_block, y_block, None);
                // Invalidate chunk
                self.dirty_chunks.push_back((x_chunk, y_chunk));
            },
            None => {},
        }
    }

    /// Puts `chunk` into the world at `coords`. Where the world has a chunk
    /// there already, the new one takes its place and the old one is handed
    /// back; else the new one joins the chunks as the last.
    pub fn insert_chunk(&mut self, coords: (i32, i32), chunk: Chunk) -> (previous: Option<Chunk>)
        requires
            old(self).wf(),
            chunk.wf(),
        ensures
            final(self).wf(),
            final(self).chunk_size == old(self).chunk_size,
            final(self).dirty_chunks == old(self).dirty_chunks,
            match old(self).spec_find(coords) {
                Some(place) => previous == Some(old(self).chunks@[place].chunk)
                    && final(self).chunks@ == old(self).chunks@.update(
                    place,
                    ChunkEntry { coords, chunk },
                ) && final(self).spec_find(coords) == Some(place),
                None => previous.is_none() && final(self).chunks@ == old(self).chunks@.push(
                    ChunkEntry { coords, chunk },
                ) && final(self).spec_find(coords) == Some(old(self).chunks@.len() as int),
            },
    {
        let ghost before = self.chunks@;
        let found = self.find(coords);
        self.chunks.push(ChunkEntry { coords, chunk });
        match found {
            Some(place) => {
                let replaced = self.chunks.swap_remove(place);
                proof {
                    assert(self.chunks@ =~= before.update(
                        place as int,
                        ChunkEntry { coords, chunk },
                    ));
                    lemma_chunk_at_coords(before, self.chunks@, coords, before.len() as int);
                    assert forall|i: int, j: int| 0 <= i < j < self.chunks@.len() implies (
                    #[trigger] self.chunks@[i]).coords != (#[trigger] self.chunks@[j]).coords by {
                        assert(before[i].coords != before[j].coords);
                    }
                }
                Some(replaced.chunk)
            },
            None => {
                proof {
                    lemma_chunk_at_same(before, self.chunks@, coords, before.len() as int);
                    lemma_chunk_at(before, coords, before.len() as int);
                    assert forall|i: int, j: int| 0 <= i < j < self.chunks@.len() implies (
                    #[trigger] self.chunks@[i]).coords != (#[trigger] self.chunks@[j]).coords by {
                        if j < before.len() {
                            assert(before[i].coords != before[j].coords);
                        } else {
                            assert(before[i].coords != coords);
                        }
                    }
                }
                None
            },
        }
    }
}

/// `SliceRandom::choose` with the generator of the thread: one of `names`,
/// whichever it may be, or `None` where there is no name to choose from.
#[verifier::external_body]
fn choose_name(names: &Vec<&'static str>) -> (chosen: Option<&'static str>)
    ensures
        names@.len() == 0 ==> chosen.is_none(),
        names@.len() > 0 ==> chosen.is_some() && names@.contains(chosen->0),
{
    names.choose(&mut rand::thread_rng()).copied()
}

/// Number of chunks along each axis that `place_some_blocks` makes.
pub const PLACED_CHUNKS: i32 = 7;

/// The greatest coordinate of a chunk whose blocks still have coordinates
/// that can be counted.
pub const MAX_CHUNK_COORD: i32 = 134217727;

/// Whether the first `n` of `commands`-to-be renew the meshes of the chunks
/// that the first `n` of `dirty` name, in that order: for each that the
/// world has, the tiles of its blocks and then the indices of their
/// corners; nothing for a name that the world has no chunk for.
pub open spec fn renews(
    commands: Seq<GlCommand>,
    chunks: Seq<ChunkEntry>,
    types: Seq<BlockType>,
    dirty: Seq<(i32, i32)>,
    n: int,
) -> bool
    decreases n,
{
    if n <= 0 {
        commands.len() == 0
    } else {
        match chunk_at(chunks, dirty[n - 1], chunks.len() as int) {
            None => renews(commands, chunks, types, dirty, n - 1),
            Some(place) => {
                let chunk = chunks[place].chunk;
                &&& commands.len() >= 2
                &&& renews(commands.subrange(0, commands.len() - 2), chunks, types, dirty, n - 1)
                &&& commands[commands.len() - 2] matches GlCommand::BufferTiles {
                    positions,
                    texcoords,
                    tiles,
                }
                &&& positions == chunk.positions.id
                &&& texcoords == chunk.tex_coords.id
                &&& tiles@ == tiles_of(chunk.blocks@, types, CHUNK_BLOCKS as int)
                &&& commands[commands.len() - 1] matches GlCommand::BufferData {
                    buffer,
                    data,
                    usage,
                }
                &&& buffer == chunk.indices.id
                &&& usage == BufferUpdateFrequency::Never
                &&& data@ == tile_indices(tiles@.len() as int)
            },
        }
    }
}

/// The commands that draw the first `n` of `chunks`: for each its vertex
/// array, its place in blocks as the offset, and the draw call over its
/// indices.
pub open spec fn chunk_draws(program: u32, chunks: Seq<ChunkEntry>, n: int) -> Seq<GlCommand>
    decreases n,
{
    if n <= 0 {
        Seq::empty()
    } else {
        let entry = chunks[n - 1];
        chunk_draws(program, chunks, n - 1) + seq![
            GlCommand::BindVertexArray { vertex_array: entry.chunk.mesh.id },
            GlCommand::SetUniform {
                program,
                name: "offset",
                value: crate::gl_wrapper::UniformValue::IntAsScalar2(
                    (entry.coords.0 * 16) as i32,
                    (entry.coords.1 * 16) as i32,
                ),
            },
            GlCommand::DrawElements { indices: entry.chunk.indices.length },
        ]
    }
}

impl VoxelWorld {
    /// Whether the world can be drawn with `catalog`: whether the catalog
    /// knows every kind of block in the world, and the chunks lie where
    /// their blocks have coordinates that can be counted.
    pub open spec fn drawable(&self, catalog: &BlockCatalog) -> bool {
        forall|i: int|
            0 <= i < self.chunks@.len() ==> {
                &&& (#[trigger] self.chunks@[i]).chunk.known(catalog)
                &&& -MAX_CHUNK_COORD <= self.chunks@[i].coords.0 <= MAX_CHUNK_COORD
                &&& -MAX_CHUNK_COORD <= self.chunks@[i].coords.1 <= MAX_CHUNK_COORD
            }
    }

    /// Renews the mesh of the chunk at `place`.
    fn regen_chunk(&mut self, gl: &mut GlQueue, catalog: &BlockCatalog, place: usize)
        requires
            old(self).wf(),
            old(self).drawable(catalog),
            place < old(self).chunks@.len(),
        ensures
            final(self).wf(),
            final(self).drawable(catalog),
            final(self).chunk_size == old(self).chunk_size,
            final(self).dirty_chunks == old(self).dirty_chunks,
            final(self).chunks@.len() == old(self).chunks@.len(),
            forall|i: int|
                0 <= i < old(self).chunks@.len() ==> {
                    &&& (#[trigger] final(self).chunks@[i]).coords == old(self).chunks@[i].coords
                    &&& final(self).chunks@[i].chunk.blocks == old(self).chunks@[i].chunk.blocks
                    &&& final(self).chunks@[i].chunk.mesh == old(self).chunks@[i].chunk.mesh
                    &&& final(self).chunks@[i].chunk.positions.id == old(self).chunks@[i].chunk.positions.id
                    &&& final(self).chunks@[i].chunk.tex_coords.id == old(self).chunks@[i].chunk.tex_coords.id
                    &&& final(self).chunks@[i].chunk.indices.id == old(self).chunks@[i].chunk.indices.id
                },
            final(gl).last_name() == old(gl).last_name(),
            final(gl)@.len() == old(gl)@.len() + 2,
            final(gl)@.subrange(0, old(gl)@.len() as int) == old(gl)@,
            final(gl)@[old(gl)@.len() as int] matches GlCommand::BufferTiles {
                positions,
                texcoords,
                tiles,
            } && positions == old(self).chunks@[place as int].chunk.positions.id && texcoords
                == old(self).chunks@[place as int].chunk.tex_coords.id && tiles@ == tiles_of(
                old(self).chunks@[place as int].chunk.blocks@,
                catalog.block_types@,
                CHUNK_BLOCKS as int,
            ) && (final(gl)@[old(gl)@.len() as int + 1] matches GlCommand::BufferData {
                buffer,
                data,
                usage,
            } && buffer == old(self).chunks@[place as int].chunk.indices.id && usage
                == BufferUpdateFrequency::Never && data@ == tile_indices(tiles@.len() as int)),
    {
        let ghost before = self.chunks@;
        let mut entry = self.chunks.swap_remove(place);
        assert(entry == before[place as int]);
        entry.chunk.regen_mesh(gl, catalog);
        proof {
            let witness = choose|tiles: Vec<Tile>, indices: Vec<u32>|
                tiles@ == tiles_of(
                    before[place as int].chunk.blocks@,
                    catalog.block_types@,
                    CHUNK_BLOCKS as int,
                ) && indices@ == tile_indices(tiles@.len() as int) && gl@ == old(gl)@
                    + #[trigger] before[place as int].chunk.mesh_commands(tiles, indices);
            let added = before[place as int].chunk.mesh_commands(witness.0, witness.1);
            assert(gl@[old(gl)@.len() as int] == added[0]);
            assert(gl@[old(gl)@.len() as int + 1] == added[1]);
            assert(gl@.subrange(0, old(gl)@.len() as int) =~= old(gl)@);
        }
        self.chunks.push(entry);
        let moved = self.chunks.swap_remove(place);
        self.chunks.push(moved);
        proof {
            assert forall|i: int| 0 <= i < before.len() && i != place implies self.chunks@[i]
                == before[i] by {
            }
        }
    }

    /// Draws the world: renews the meshes of the chunks that were touched,
    /// in the order in which they were touched, and then draws every
    /// chunk with the atlas of the catalog on texture unit 0.
    pub fn render(&mut self, gl: &mut GlQueue, block_catalog: &BlockCatalog, shader: &VoxelShader)
        requires
            old(self).wf(),
            old(self).drawable(block_catalog),
        ensures
            final(self).wf(),
            final(self).drawable(block_catalog),
            final(self).chunk_size == old(self).chunk_size,
            final(self).dirty_chunks@ == Seq::<(i32, i32)>::empty(),
            final(self).chunks@.len() == old(self).chunks@.len(),
            forall|i: int|
                0 <= i < old(self).chunks@.len() ==> {
                    &&& (#[trigger] final(self).chunks@[i]).coords == old(self).chunks@[i].coords
                    &&& final(self).chunks@[i].chunk.blocks == old(self).chunks@[i].chunk.blocks
                    &&& final(self).chunks@[i].chunk.mesh == old(self).chunks@[i].chunk.mesh
                },
            final(gl).last_name() == old(gl).last_name(),
            exists|renewal: Seq<GlCommand>|
                #![trigger renews(renewal, old(self).chunks@, block_catalog.block_types@, old(self).dirty_chunks@, old(self).dirty_chunks@.len() as int)]
                renews(
                    renewal,
                    old(self).chunks@,
                    block_catalog.block_types@,
                    old(self).dirty_chunks@,
                    old(self).dirty_chunks@.len() as int,
                ) && final(gl)@ == old(gl)@ + renewal + Texture2D::activation(
                    block_catalog.blocks_texture_atlas.id,
                    0,
                ) + seq![GlCommand::UseProgram { program: shader.program.id }] + chunk_draws(
                    shader.program.id,
                    final(self).chunks@,
                    final(self).chunks@.len() as int,
                ),
    {
        let ghost dirty = self.dirty_chunks@;
        let ghost start = self.chunks@;
        let ghost types = block_catalog.block_types@;
        let ghost mut done: int = 0;
        // Process invalidated chunks
        loop
            invariant
                0 <= done <= dirty.len(),
                self.wf(),
                self.drawable(block_catalog),
                self.chunk_size == old(self).chunk_size,
                self.dirty_chunks@ == dirty.subrange(done, dirty.len() as int),
                self.chunks@.len() == start.len(),
                types == block_catalog.block_types@,
                forall|i: int|
                    0 <= i < start.len() ==> {
                        &&& (#[trigger] self.chunks@[i]).coords == start[i].coords
                        &&& self.chunks@[i].chunk.blocks == start[i].chunk.blocks
                        &&& self.chunks@[i].chunk.mesh == start[i].chunk.mesh
                        &&& self.chunks@[i].chunk.positions.id == start[i].chunk.positions.id
                        &&& self.chunks@[i].chunk.tex_coords.id == start[i].chunk.tex_coords.id
                        &&& self.chunks@[i].chunk.indices.id == start[i].chunk.indices.id
                    },
                gl.last_name() == old(gl).last_name(),
                old(gl)@.len() <= gl@.len(),
                gl@.subrange(0, old(gl)@.len() as int) == old(gl)@,
                renews(gl@.subrange(old(gl)@.len() as int, gl@.len() as int), start, types, dirty, done),
            ensures
                done == dirty.len(),
                self.dirty_chunks@ == Seq::<(i32, i32)>::empty(),
            decreases dirty.len() - done,
        {
            let ghost recorded = gl@.subrange(old(gl)@.len() as int, gl@.len() as int);
            match self.dirty_chunks.pop_front() {
                None => {
                    proof {
                        assert(self.dirty_chunks@ =~= Seq::<(i32, i32)>::empty());
                    }
                    break ;
                },
                Some(coords) => {
                    proof {
                        assert(coords == dirty[done]);
                        assert(self.dirty_chunks@ =~= dirty.subrange(done + 1, dirty.len() as int));
                        lemma_chunk_at_coords(self.chunks@, start, coords, start.len() as int);
                    }
                    match self.find(coords) {
                        Some(place) => {
                            let ghost before = gl@;
                            self.regen_chunk(gl, block_catalog, place);
                            proof {
                                let now = gl@.subrange(old(gl)@.len() as int, gl@.len() as int);
                                assert(now.subrange(0, now.len() - 2) =~= recorded) by {
                                    assert(gl@.subrange(0, before.len() as int) == before);
                                    assert forall|i: int| 0 <= i < recorded.len() implies now[i]
                                        == recorded[i] by {
                                        assert(gl@.subrange(0, before.len() as int)[old(gl)@.len()
                                            + i] == before[old(gl)@.len() + i]);
                                    }
                                }
                                assert(now[now.len() - 2] == gl@[before.len() as int]);
                                assert(now[now.len() - 1] == gl@[before.len() as int + 1]);
                                assert(gl@.subrange(0, old(gl)@.len() as int) =~= old(gl)@) by {
                                    assert forall|i: int| 0 <= i < old(gl)@.len() implies gl@[i]
                                        == old(gl)@[i] by {
                                        assert(gl@.subrange(0, before.len() as int)[i]
                                            == before[i]);
                                        assert(before.subrange(0, old(gl)@.len() as int)[i]
                                            == old(gl)@[i]);
                                    }
                                }
                            }
                        },
                        None => {},
                    }
                    proof {
                        done = done + 1;
                    }
                },
            }
        }
        let ghost renewal = gl@.subrange(old(gl)@.len() as int, gl@.len() as int);
        let ghost after_renewal = gl@;
        proof {
            assert(after_renewal =~= old(gl)@ + renewal);
        }
        block_catalog.blocks_texture_atlas.activate(gl, 0);
        shader.bind(gl);
        let ghost before_draws = gl@;
        let mut i: usize = 0;
        while i < self.chunks.len()
            invariant
                0 <= i <= self.chunks@.len(),
                self.drawable(block_catalog),
                gl.last_name() == old(gl).last_name(),
                gl@ == before_draws + chunk_draws(shader.program.id, self.chunks@, i as int),
            decreases self.chunks@.len() - i,
        {
            let entry = &self.chunks[i];
            entry.chunk.mesh.bind(gl);
            shader.set_offset(gl, (entry.coords.0 * 16, entry.coords.1 * 16));
            gl.push(GlCommand::DrawElements { indices: entry.chunk.indices.len() });
            i += 1;
            proof {
                assert(gl@ =~= before_draws + chunk_draws(shader.program.id, self.chunks@, i as int));
            }
        }
        proof {
            assert(gl@ =~= old(gl)@ + renewal + Texture2D::activation(
                block_catalog.blocks_texture_atlas.id,
                0,
            ) + seq![GlCommand::UseProgram { program: shader.program.id }] + chunk_draws(
                shader.program.id,
                self.chunks@,
                self.chunks@.len() as int,
            ));
            assert(renews(renewal, start, types, dirty, dirty.len() as int));
        }
    }

    /// Fills the world with seven by seven chunks, from (0, 0) to (6, 6).
    /// Every block of such a chunk that lies within the size of chunks is
    /// of a kind taken at random from `ids`, but for three blocks in the
    /// middle, which are air, as is every block beyond the size of chunks.
    /// The meshes of the new chunks are up to date.
    ///
    /// A chunk that the world had at one of these places makes way for the
    /// new one, and its vertex array and lightmap are deleted. Every other
    /// chunk of the world stays as it is.
    pub fn place_some_blocks(
        &mut self,
        gl: &mut GlQueue,
        block_catalog: &BlockCatalog,
        ids: &Vec<&'static str>,
    )
        requires
            old(self).wf(),
            old(self).chunk_size.0 <= CHUNK_SIDE,
            old(self).chunk_size.1 <= CHUNK_SIDE,
            ids@.len() > 0,
            forall|i: int|
                0 <= i < ids@.len() ==> spec_lookup(
                    block_catalog.block_types@,
                    #[trigger] ids@[i],
                    block_catalog.block_types@.len() as int,
                ).is_some(),
            old(gl).has_names(245),
        ensures
            final(self).wf(),
            old(self).drawable(block_catalog) ==> final(self).drawable(block_catalog),
            final(self).chunk_size == old(self).chunk_size,
            final(self).dirty_chunks == old(self).dirty_chunks,
            forall|k: int|
                0 <= k < 49 ==> (#[trigger] final(self).spec_find(placed_coords(k)) matches Some(
                    place,
                ) && 0 <= place < final(self).chunks@.len() && placed(
                    final(self).chunks@[place],
                    placed_coords(k),
                    final(self).chunk_size,
                    ids@,
                )),
            kept(old(self).chunks@, final(self).chunks@),
            old(self).chunks@.len() == 0 ==> in_order(final(self).chunks@, 49),
            final(gl).last_name() == old(gl).last_name() + 245,
            old(gl)@.is_prefix_of(final(gl)@),
    {
        let mut xx: i32 = 0;
        while xx < 7
            invariant
                0 <= xx <= 7,
                self.wf(),
                old(self).drawable(block_catalog) ==> self.drawable(block_catalog),
                self.chunk_size == old(self).chunk_size,
                self.chunk_size.0 <= CHUNK_SIDE,
                self.chunk_size.1 <= CHUNK_SIDE,
                self.dirty_chunks == old(self).dirty_chunks,
                ids@.len() > 0,
                forall|i: int|
                    0 <= i < ids@.len() ==> spec_lookup(
                        block_catalog.block_types@,
                        #[trigger] ids@[i],
                        block_catalog.block_types@.len() as int,
                    ).is_some(),
                all_placed(self.chunks@, self.chunk_size, ids@, 7 * xx),
                kept(old(self).chunks@, self.chunks@),
                old(self).chunks@.len() == 0 ==> in_order(self.chunks@, 7 * xx),
                gl.last_name() == old(gl).last_name() + 35 * xx,
                old(gl).has_names(245),
                old(gl)@.is_prefix_of(gl@),
            decreases 7 - xx,
        {
            let mut yy: i32 = 0;
            while yy < 7
                invariant
                    0 <= xx < 7,
                    0 <= yy <= 7,
                    self.wf(),
                    old(self).drawable(block_catalog) ==> self.drawable(block_catalog),
                    self.chunk_size == old(self).chunk_size,
                    self.chunk_size.0 <= CHUNK_SIDE,
                    self.chunk_size.1 <= CHUNK_SIDE,
                    self.dirty_chunks == old(self).dirty_chunks,
                    ids@.len() > 0,
                    forall|i: int|
                        0 <= i < ids@.len() ==> spec_lookup(
                            block_catalog.block_types@,
                            #[trigger] ids@[i],
                            block_catalog.block_types@.len() as int,
                        ).is_some(),
                    all_placed(self.chunks@, self.chunk_size, ids@, 7 * xx + yy),
                    kept(old(self).chunks@, self.chunks@),
                    old(self).chunks@.len() == 0 ==> in_order(self.chunks@, 7 * xx + yy),
                    gl.last_name() == old(gl).last_name() + 35 * xx + 5 * yy,
                    old(gl).has_names(245),
                    old(gl)@.is_prefix_of(gl@),
                decreases 7 - yy,
            {
                let mut chunk = Self::random_chunk(gl, self.chunk_size, ids);
                proof {
                    lemma_filled_is_known(chunk.blocks@, self.chunk_size, ids@, block_catalog);
                }
                chunk.regen_mesh(gl, block_catalog);
                let ghost before = self.chunks@;
                let ghost done = 7 * xx + yy;
                proof {
                    assert(placed_coords(done) == (xx, yy));
                    lemma_chunk_at(before, (xx, yy), before.len() as int);
                }
                match self.insert_chunk((xx, yy), chunk) {
                    Some(replaced) => {
                        replaced.mesh.delete(gl);
                        replaced.lightmap.delete(gl);
                    },
                    None => {},
                }
                proof {
                    lemma_one_more_placed(before, self.chunks@, self.chunk_size, ids@, done);
                    if old(self).chunks@.len() == 0 {
                        if before.len() > 0 && chunk_at(before, (xx, yy), before.len() as int) is Some {
                            let p = chunk_at(before, (xx, yy), before.len() as int)->0;
                            assert(before[p].coords == placed_coords(p));
                        }
                    }
                }
                yy += 1;
            }
            xx += 1;
        }
    }

    /// A chunk whose blocks within `chunk_size` are of kinds taken at
    /// random from `ids`, but for three blocks in the middle.
    fn random_chunk(gl: &mut GlQueue, chunk_size: (u32, u32), ids: &Vec<&'static str>) -> (chunk:
        Chunk)
        requires
            old(gl).has_names(5),
            chunk_size.0 <= CHUNK_SIDE,
            chunk_size.1 <= CHUNK_SIDE,
            ids@.len() > 0,
        ensures
            chunk.wf(),
            filled(chunk.blocks@, chunk_size, ids@),
            chunk.indices.spec_len() == 0,
            final(gl).last_name() == old(gl).last_name() + 5,
            old(gl)@.is_prefix_of(final(gl)@),
    {
        let mut chunk = Chunk::new(gl);
        let mut y: u32 = 0;
        while y < chunk_size.1
            invariant
                0 <= y <= chunk_size.1,
                chunk_size.0 <= CHUNK_SIDE,
                chunk_size.1 <= CHUNK_SIDE,
                chunk.wf(),
                chunk.indices.spec_len() == 0,
                ids@.len() > 0,
                forall|cx: u32, cy: u32|
                    cx < CHUNK_SIDE && cy < CHUNK_SIDE ==> {
                        let block = chunk.blocks@[#[trigger] block_index(cx, cy)];
                        if cx < chunk_size.0 && cy < y {
                            ids@.contains(block.id)
                        } else {
                            block.spec_is_air()
                        }
                    },
            decreases chunk_size.1 - y,
        {
            let mut x: u32 = 0;
            while x < chunk_size.0
                invariant
                    0 <= x <= chunk_size.0,
                    0 <= y < chunk_size.1,
                    chunk_size.0 <= CHUNK_SIDE,
                    chunk_size.1 <= CHUNK_SIDE,
                    chunk.wf(),
                    chunk.indices.spec_len() == 0,
                    ids@.len() > 0,
                    forall|cx: u32, cy: u32|
                        cx < CHUNK_SIDE && cy < CHUNK_SIDE ==> {
                            let block = chunk.blocks@[#[trigger] block_index(cx, cy)];
                            if cx < chunk_size.0 && (cy < y || (cy == y && cx < x)) {
                                ids@.contains(block.id)
                            } else {
                                block.spec_is_air()
                            }
                        },
                decreases chunk_size.0 - x,
            {
                match choose_name(ids) {
                    Some(id) => {
                        chunk.add_block(x, y, Block { id });
                    },
                    None => {},
                }
                x += 1;
            }
            y += 1;
        }
        chunk.remove_block(7, 7);
        chunk.remove_block(7, 8);
        chunk.remove_block(8, 8);
        chunk
    }
}

/// The coordinates of the chunk that `place_some_blocks` makes as its
/// `k`-th: column after column, each from the bottom up.
pub open spec fn placed_coords(k: int) -> (i32, i32) {
    ((k / 7) as i32, (k % 7) as i32)
}

/// Whether (`x`, `y`) is one of the three places in the middle of a chunk
/// that `place_some_blocks` leaves empty.
pub open spec fn left_empty(x: u32, y: u32) -> bool {
    (x == 7 && y == 7) || (x == 7 && y == 8) || (x == 8 && y == 8)
}

/// Whether `blocks` are the blocks of a chunk as `place_some_blocks` fills
/// it: a block of a kind from `ids` at every place within `size`, but for
/// the three places left empty; air there and at every place beyond `size`.
pub open spec fn filled(blocks: Seq<Block>, size: (u32, u32), ids: Seq<&'static str>) -> bool {
    forall|x: u32, y: u32|
        x < CHUNK_SIDE && y < CHUNK_SIDE ==> {
            let block = blocks[#[trigger] block_index(x, y)];
            if x < size.0 && y < size.1 && !left_empty(x, y) {
                ids.contains(block.id)
            } else {
                block.spec_is_air()
            }
        }
}

/// Whether `entry` is a chunk at `coords` as `place_some_blocks` fills it.
pub open spec fn placed(
    entry: ChunkEntry,
    coords: (i32, i32),
    size: (u32, u32),
    ids: Seq<&'static str>,
) -> bool {
    &&& entry.coords == coords
    &&& entry.chunk.wf()
    &&& filled(entry.chunk.blocks@, size, ids)
}

/// Whether the world has, for each of the first `n` places of
/// `place_some_blocks`, a chunk as that function fills it.
pub open spec fn all_placed(
    chunks: Seq<ChunkEntry>,
    size: (u32, u32),
    ids: Seq<&'static str>,
    n: int,
) -> bool {
    forall|k: int|
        0 <= k < n ==> (#[trigger] chunk_at(chunks, placed_coords(k), chunks.len() as int) matches Some(
            place,
        ) && 0 <= place < chunks.len() && placed(chunks[place], placed_coords(k), size, ids))
}

/// Whether the chunks of `before` are still where they were in `after`,
/// and those that lie outside the seven by seven places of
/// `place_some_blocks` are as they were.
pub open spec fn kept(before: Seq<ChunkEntry>, after: Seq<ChunkEntry>) -> bool {
    &&& before.len() <= after.len()
    &&& forall|i: int|
        0 <= i < before.len() ==> {
            &&& (#[trigger] after[i]).coords == before[i].coords
            &&& !(0 <= before[i].coords.0 < 7 && 0 <= before[i].coords.1 < 7) ==> after[i]
                == before[i]
        }
}

/// Whether `chunks` are `n` chunks at the first `n` places of
/// `place_some_blocks`, in the order in which that function makes them.
pub open spec fn in_order(chunks: Seq<ChunkEntry>, n: int) -> bool {
    &&& chunks.len() == n
    &&& forall|k: int| 0 <= k < n ==> (#[trigger] chunks[k]).coords == placed_coords(k)
}

proof fn lemma_filled_is_known(
    blocks: Seq<Block>,
    size: (u32, u32),
    ids: Seq<&'static str>,
    catalog: &BlockCatalog,
)
    requires
        blocks.len() == CHUNK_BLOCKS,
        filled(blocks, size, ids),
        forall|i: int|
            0 <= i < ids.len() ==> spec_lookup(
                catalog.block_types@,
                #[trigger] ids[i],
                catalog.block_types@.len() as int,
            ).is_some(),
    ensures
        forall|b: int|
            0 <= b < blocks.len() && !(#[trigger] blocks[b]).spec_is_air() ==> spec_lookup(
                catalog.block_types@,
                blocks[b].id,
                catalog.block_types@.len() as int,
            ).is_some(),
{
    assert forall|b: int| 0 <= b < blocks.len() && !(#[trigger] blocks[b]).spec_is_air() implies spec_lookup(
        catalog.block_types@,
        blocks[b].id,
        catalog.block_types@.len() as int,
    ).is_some() by {
        let x = (b % 16) as u32;
        let y = (b / 16) as u32;
        assert(block_index(x, y) == b);
        assert(ids.contains(blocks[b].id));
        let i = choose|i: int| 0 <= i < ids.len() && ids[i] == blocks[b].id;
        assert(spec_lookup(catalog.block_types@, ids[i], catalog.block_types@.len() as int).is_some());
    }
}

/// Putting the chunk of the next place into the world keeps the chunks of
/// the places before it.
proof fn lemma_one_more_placed(
    before: Seq<ChunkEntry>,
    after: Seq<ChunkEntry>,
    size: (u32, u32),
    ids: Seq<&'static str>,
    done: int,
)
    requires
        0 <= done < 49,
        all_placed(before, size, ids, done),
        match chunk_at(before, placed_coords(done), before.len() as int) {
            Some(place) => 0 <= place < before.len() && after.len() == before.len() && after[place].coords
                == placed_coords(done) && placed(after[place], placed_coords(done), size, ids)
                && forall|i: int| 0 <= i < before.len() && i != place ==> after[i] == before[i],
            None => after.len() == before.len() + 1 && placed(
                after[before.len() as int],
                placed_coords(done),
                size,
                ids,
            ) && forall|i: int| 0 <= i < before.len() ==> after[i] == before[i],
        },
        chunk_at(after, placed_coords(done), after.len() as int) == (match chunk_at(
            before,
            placed_coords(done),
            before.len() as int,
        ) {
            Some(place) => Some(place),
            None => Some(before.len() as int),
        }),
    ensures
        all_placed(after, size, ids, done + 1),
{
    let here = placed_coords(done);
    lemma_chunk_at(before, here, before.len() as int);
    assert forall|k: int| 0 <= k < done + 1 implies (#[trigger] chunk_at(
        after,
        placed_coords(k),
        after.len() as int,
    ) matches Some(place) && 0 <= place < after.len() && placed(
        after[place],
        placed_coords(k),
        size,
        ids,
    )) by {
        if k < done {
            let there = placed_coords(k);
            assert(there != here);
            let found = chunk_at(before, there, before.len() as int);
            assert(found is Some);
            let place = found->0;
            lemma_chunk_at(before, there, before.len() as int);
            match chunk_at(before, here, before.len() as int) {
                Some(replaced) => {
                    lemma_chunk_at_coords(before, after, there, before.len() as int);
                    assert(place != replaced);
                },
                None => {
                    lemma_chunk_at_same(before, after, there, before.len() as int);
                    lemma_chunk_at_stays(after, there, before.len() as int, after.len() as int);
                },
            }
        }
    }
}

proof fn lemma_chunk_at_coords(a: Seq<ChunkEntry>, b: Seq<ChunkEntry>, coords: (i32, i32), n: int)
    requires
        0 <= n <= a.len(),
        a.len() == b.len(),
        forall|i: int| 0 <= i < n ==> (#[trigger] a[i]).coords == b[i].coords,
    ensures
        chunk_at(a, coords, n) == chunk_at(b, coords, n),
    decreases n,
{
    if n > 0 {
        lemma_chunk_at_coords(a, b, coords, n - 1);
    }
}

proof fn lemma_chunk_at_same(a: Seq<ChunkEntry>, b: Seq<ChunkEntry>, coords: (i32, i32), n: int)
    requires
        0 <= n <= a.len(),
        a.len() <= b.len(),
        forall|i: int| 0 <= i < n ==> a[i] == b[i],
    ensures
        chunk_at(a, coords, n) == chunk_at(b, coords, n),
    decreases n,
{
    if n > 0 {
        lemma_chunk_at_same(a, b, coords, n - 1);
    }
}

} // verus!
