//! The shapes that every scene uses: the unit cube that the skybox is drawn
//! on and the quad that covers the screen.

use crate::gl_wrapper::vao::{layouts, BufferLayout, VAO};
use crate::gl_wrapper::vbo::{VertexAttribute, VBO};
use crate::gl_wrapper::{BufferUpdateFrequency, GlCommand, GlQueue};
use crate::math::{MINUS_ONE_BITS, ONE_BITS, ZERO_BITS};
use vstd::prelude::*;

verus! {

/// The vertex arrays of the predefined shapes.
#[derive(Debug)]
pub struct PredefinedShapes {
    pub unit_cube: VAO,
    pub unit_quad: VAO,
}

/// Number of vertices of the unit cube: two triangles on each of six faces.
pub const CUBE_VERTICES: i32 = 36;

/// Number of vertices of the quad: two triangles.
pub const QUAD_VERTICES: i32 = 6;

/// The corners of the triangles of the cube with corners at plus and minus
/// one, three coordinates per vertex, as signs: `true` for plus one.
pub open spec fn cube_signs() -> Seq<bool> {
    seq![
        false, true, false, false, false, false, true, false, false,
        true, false, false, true, true, false, false, true, false,
        false, false, true, false, false, false, false, true, false,
        false, true, false, false, true, true, false, false, true,
        true, false, false, true, false, true, true, true, true,
        true, true, true, true, true, false, true, false, false,
        false, false, true, false, true, true, true, true, true,
        true, true, true, true, false, true, false, false, true,
        false, true, false, true, true, false, true, true, true,
        true, true, true, false, true, true, false, true, false,
        false, false, false, false, false, true, true, false, false,
        true, false, false, false, false, true, true, false, true,
    ]
}

/// The bit pattern of plus one or of minus one.
pub open spec fn sign_bits(plus: bool) -> u32 {
    if plus {
        ONE_BITS
    } else {
        MINUS_ONE_BITS
    }
}

/// The coordinates of the vertices of the cube, as bit patterns.
pub open spec fn cube_positions() -> Seq<u32> {
    Seq::new(cube_signs().len(), |i: int| sign_bits(cube_signs()[i]))
}

/// The corners of the two triangles of the quad, two coordinates per
/// vertex, as signs.
pub open spec fn quad_signs() -> Seq<bool> {
    seq![false, true, false, false, true, false, false, true, true, false, true, true]
}

/// The coordinates of the vertices of the quad, as bit patterns.
pub open spec fn quad_positions() -> Seq<u32> {
    Seq::new(quad_signs().len(), |i: int| sign_bits(quad_signs()[i]))
}

/// The texture coordinates of the vertices of the quad, as bit patterns:
/// zero where the position is minus one, one where it is plus one.
pub open spec fn quad_texcoords() -> Seq<u32> {
    Seq::new(
        quad_signs().len(),
        |i: int|
            if quad_signs()[i] {
                ONE_BITS
            } else {
                ZERO_BITS
            },
    )
}

/// The bit patterns of the given signs: plus or minus one where `low` is
/// minus one, one or zero where it is zero.
fn bits_of(signs: &Vec<bool>, low: u32) -> (bits: Vec<u32>)
    ensures
        bits@.len() == signs@.len(),
        forall|i: int|
            0 <= i < signs@.len() ==> bits@[i] == (if signs@[i] {
                ONE_BITS
            } else {
                low
            }),
{
    let mut bits: Vec<u32> = Vec::new();
    let mut i: usize = 0;
    while i < signs.len()
        invariant
            0 <= i <= signs@.len(),
            bits@.len() == i,
            forall|j: int|
                0 <= j < i ==> bits@[j] == (if signs@[j] {
                    ONE_BITS
                } else {
                    low
                }),
        decreases signs@.len() - i,
    {
        bits.push(if signs[i] { ONE_BITS } else { low });
        i += 1;
    }
    bits
}

/// The commands that build a vertex array over one buffer of positions, in
/// a queue whose last name is `last_name`.
pub open spec fn single_buffer_shape(last_name: u32, components: u32, data: Vec<u32>) -> Seq<
    GlCommand,
> {
    let buffer = (last_name + 1) as u32;
    seq![
        GlCommand::CreateBuffer { buffer },
        GlCommand::BufferData { buffer, data, usage: BufferUpdateFrequency::Never },
    ] + VAO::creation(
        (last_name + 2) as u32,
        seq![BufferLayout { buffer, attributes: seq![VertexAttribute { index: 0, components }] }],
        None,
    )
}

/// The commands that build a vertex array over a buffer of positions and a
/// buffer of texture coordinates, in a queue whose last name is
/// `last_name`.
pub open spec fn double_buffer_shape(last_name: u32, positions: Vec<u32>, texcoords: Vec<u32>) -> Seq<
    GlCommand,
> {
    let first = (last_name + 1) as u32;
    let second = (last_name + 2) as u32;
    seq![
        GlCommand::CreateBuffer { buffer: first },
        GlCommand::BufferData { buffer: first, data: positions, usage: BufferUpdateFrequency::Never },
        GlCommand::CreateBuffer { buffer: second },
        GlCommand::BufferData {
            buffer: second,
            data: texcoords,
            usage: BufferUpdateFrequency::Never,
        },
    ] + VAO::creation(
        (last_name + 3) as u32,
        seq![
            BufferLayout {
                buffer: first,
                attributes: seq![VertexAttribute { index: 0, components: 2 }],
            },
            BufferLayout {
                buffer: second,
                attributes: seq![VertexAttribute { index: 1, components: 2 }],
            },
        ],
        None,
    )
}

/// The cube with corners at plus and minus one on every axis, as 36
/// vertices of three coordinates each, without indices.
pub fn parallelepiped(gl: &mut GlQueue) -> (vao: VAO)
    requires
        old(gl).has_names(2),
    ensures
        vao.id == old(gl).last_name() + 2,
        final(gl).last_name() == vao.id,
        exists|data: Vec<u32>|
            data@ == cube_positions() && final(gl)@ == old(gl)@ + #[trigger] single_buffer_shape(
                old(gl).last_name(),
                3,
                data,
            ),
{
    let signs: Vec<bool> = vec![
        false, true, false, false, false, false, true, false, false,
        true, false, false, true, true, false, false, true, false,
        false, false, true, false, false, false, false, true, false,
        false, true, false, false, true, true, false, false, true,
        true, false, false, true, false, true, true, true, true,
        true, true, true, true, true, false, true, false, false,
        false, false, true, false, true, true, true, true, true,
        true, true, true, true, false, true, false, false, true,
        false, true, false, true, true, false, true, true, true,
        true, true, true, false, true, true, false, true, false,
        false, false, false, false, false, true, true, false, false,
        true, false, false, false, false, true, true, false, true,
    ];
    let positions = bits_of(&signs, MINUS_ONE_BITS);
    proof {
        assert(signs@ =~= cube_signs());
        assert(positions@ =~= cube_positions());
    }
    let ghost data = positions;
    let mut attributes: Vec<VertexAttribute> = Vec::new();
    attributes.push(VertexAttribute { index: 0, components: 3 });
    let mut vbo = VBO::new(gl, attributes);
    vbo.with(gl, positions, BufferUpdateFrequency::Never);
    let mut vbos: Vec<VBO> = Vec::new();
    vbos.push(vbo);
    proof {
        crate::gl_wrapper::vao::lemma_single_attribute_fits(vbos@[0].attributes@);
    }
    let vao = VAO::new(gl, &vbos, None);
    proof {
        assert(layouts(vbos@) =~= seq![
            BufferLayout {
                buffer: (old(gl).last_name() + 1) as u32,
                attributes: seq![VertexAttribute { index: 0, components: 3 }],
            },
        ]);
        assert(gl@ =~= old(gl)@ + single_buffer_shape(old(gl).last_name(), 3, data));
    }
    vao
}

/// The quad that covers the screen: two triangles with corners at plus and
/// minus one, with texture coordinates from zero to one.
pub fn quad(gl: &mut GlQueue) -> (vao: VAO)
    requires
        old(gl).has_names(3),
    ensures
        vao.id == old(gl).last_name() + 3,
        final(gl).last_name() == vao.id,
        exists|positions: Vec<u32>, texcoords: Vec<u32>|
            positions@ == quad_positions() && texcoords@ == quad_texcoords() && final(gl)@ == old(gl)@ + #[trigger] double_buffer_shape(old(gl).last_name(), positions, texcoords),
{
    let signs: Vec<bool> = vec![
        false, true, false, false, true, false, false, true, true, false, true, true,
    ];
    let quad_pos = bits_of(&signs, MINUS_ONE_BITS);
    let quad_tex = bits_of(&signs, ZERO_BITS);
    proof {
        assert(signs@ =~= quad_signs());
        assert(quad_pos@ =~= quad_positions());
        assert(quad_tex@ =~= quad_texcoords());
    }
    let ghost positions = quad_pos;
    let ghost texcoords = quad_tex;
    let mut first_attributes: Vec<VertexAttribute> = Vec::new();
    first_attributes.push(VertexAttribute { index: 0, components: 2 });
    let mut first = VBO::new(gl, first_attributes);
    first.with(gl, quad_pos, BufferUpdateFrequency::Never);
    let mut second_attributes: Vec<VertexAttribute> = Vec::new();
    second_attributes.push(VertexAttribute { index: 1, components: 2 });
    let mut second = VBO::new(gl, second_attributes);
    second.with(gl, quad_tex, BufferUpdateFrequency::Never);
    let mut vbos: Vec<VBO> = Vec::new();
    vbos.push(first);
    vbos.push(second);
    proof {
        crate::gl_wrapper::vao::lemma_single_attribute_fits(vbos@[0].attributes@);
        crate::gl_wrapper::vao::lemma_single_attribute_fits(vbos@[1].attributes@);
    }
    let vao = VAO::new(gl, &vbos, None);
    proof {
        assert(layouts(vbos@) =~= seq![
            BufferLayout {
                buffer: (old(gl).last_name() + 1) as u32,
                attributes: seq![VertexAttribute { index: 0, components: 2 }],
            },
            BufferLayout {
                buffer: (old(gl).last_name() + 2) as u32,
                attributes: seq![VertexAttribute { index: 1, components: 2 }],
            },
        ]);
        assert(gl@ =~= old(gl)@ + double_buffer_shape(old(gl).last_name(), positions, texcoords));
    }
    vao
}

impl PredefinedShapes {
    /// The unit cube and the quad, built in this order.
    pub fn new(gl: &mut GlQueue) -> (shapes: PredefinedShapes)
        requires
            old(gl).has_names(5),
        ensures
            shapes.unit_cube.id == old(gl).last_name() + 2,
            shapes.unit_quad.id == old(gl).last_name() + 5,
            final(gl).last_name() == old(gl).last_name() + 5,
            exists|cube: Vec<u32>, positions: Vec<u32>, texcoords: Vec<u32>|
                cube@ == cube_positions() && positions@ == quad_positions() && texcoords@
                    == quad_texcoords() && final(gl)@ == old(gl)@ + #[trigger] single_buffer_shape(
                    old(gl).last_name(),
                    3,
                    cube,
                ) + #[trigger] double_buffer_shape(
                    (old(gl).last_name() + 2) as u32,
                    positions,
                    texcoords,
                ),
    {
        let unit_cube = parallelepiped(gl);
        let unit_quad = quad(gl);
        PredefinedShapes { unit_cube, unit_quad }
    }
}

} // verus!
