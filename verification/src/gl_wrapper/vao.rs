//! Vertex arrays: which buffers feed which vertex attributes.

use crate::gl_wrapper::ebo::EBO;
use crate::gl_wrapper::vbo::{VertexAttribute, VBO};
use crate::gl_wrapper::{GlCommand, GlQueue};
use vstd::prelude::*;

verus! {

/// A vertex array.
#[derive(Debug)]
pub struct VAO {
    pub id: u32,
}

/// Number of bytes that the first `n` of `attributes` take in one vertex.
pub open spec fn bytes_before(attributes: Seq<VertexAttribute>, n: int) -> int
    decreases n,
{
    if n <= 0 {
        0
    } else {
        bytes_before(attributes, n - 1) + 4 * attributes[n - 1].components
    }
}

/// The commands that wire the first `n` attributes of the buffer `buffer` to
/// the binding `binding` of the vertex array `vao`. Each attribute starts
/// where the one before it ends.
pub open spec fn attribute_commands(
    vao: u32,
    binding: u32,
    buffer: u32,
    attributes: Seq<VertexAttribute>,
    n: int,
) -> Seq<GlCommand>
    decreases n,
{
    if n <= 0 {
        Seq::empty()
    } else {
        let attribute = attributes[n - 1];
        attribute_commands(vao, binding, buffer, attributes, n - 1) + seq![
            GlCommand::EnableVertexArrayAttrib { vertex_array: vao, index: attribute.index },
            GlCommand::VertexArrayAttribFormat {
                vertex_array: vao,
                index: attribute.index,
                components: attribute.components,
                offset: bytes_before(attributes, n - 1) as u32,
            },
            GlCommand::VertexArrayAttribBinding {
                vertex_array: vao,
                index: attribute.index,
                binding,
            },
            GlCommand::VertexArrayVertexBuffer {
                vertex_array: vao,
                binding,
                buffer,
                components: attribute.components,
            },
        ]
    }
}

/// What a vertex array needs to know of a vertex buffer: its name and the
/// attributes of its vertices.
pub struct BufferLayout {
    pub buffer: u32,
    pub attributes: Seq<VertexAttribute>,
}

/// What a vertex array needs to know of each of `vbos`.
pub open spec fn layouts(vbos: Seq<VBO>) -> Seq<BufferLayout> {
    Seq::new(
        vbos.len(),
        |i: int| BufferLayout { buffer: vbos[i].id, attributes: vbos[i].attributes@ },
    )
}

/// The commands that wire the first `n` of `vbos` to the vertex array `vao`,
/// the buffer at place `i` to the binding `i`.
pub open spec fn buffer_commands(vao: u32, vbos: Seq<BufferLayout>, n: int) -> Seq<GlCommand>
    decreases n,
{
    if n <= 0 {
        Seq::empty()
    } else {
        buffer_commands(vao, vbos, n - 1) + attribute_commands(
            vao,
            (n - 1) as u32,
            vbos[n - 1].buffer,
            vbos[n - 1].attributes,
            vbos[n - 1].attributes.len() as int,
        )
    }
}

/// Whether the attributes of one vertex take no more bytes than an offset
/// of the graphics API can express.
pub open spec fn layout_fits(attributes: Seq<VertexAttribute>) -> bool {
    bytes_before(attributes, attributes.len() as int) <= u32::MAX
}

/// A single attribute of at most four scalars fits.
pub proof fn lemma_single_attribute_fits(attributes: Seq<VertexAttribute>)
    requires
        attributes.len() == 1,
        attributes[0].components <= 4,
    ensures
        layout_fits(attributes),
{
    reveal_with_fuel(bytes_before, 2);
}

proof fn lemma_bytes_before_monotonic(attributes: Seq<VertexAttribute>, i: int, j: int)
    requires
        0 <= i <= j <= attributes.len(),
    ensures
        0 <= bytes_before(attributes, i) <= bytes_before(attributes, j),
    decreases j - i,
{
    if i < j {
        lemma_bytes_before_monotonic(attributes, i, j - 1);
    } else {
        lemma_bytes_before_nonnegative(attributes, i);
    }
}

proof fn lemma_bytes_before_nonnegative(attributes: Seq<VertexAttribute>, i: int)
    requires
        0 <= i <= attributes.len(),
    ensures
        0 <= bytes_before(attributes, i),
    decreases i,
{
    if i > 0 {
        lemma_bytes_before_nonnegative(attributes, i - 1);
    }
}

impl VAO {
    /// The commands that create the vertex array `id` over the given
    /// buffers.
    pub open spec fn creation(id: u32, vbos: Seq<BufferLayout>, ebo: Option<u32>) -> Seq<
        GlCommand,
    > {
        seq![GlCommand::CreateVertexArray { vertex_array: id }] + buffer_commands(
            id,
            vbos,
            vbos.len() as int,
        ) + match ebo {
            Some(ebo) => seq![GlCommand::VertexArrayElementBuffer { vertex_array: id, buffer: ebo }],
            None => Seq::empty(),
        }
    }

    /// The name of the element buffer, if there is one.
    pub open spec fn element_buffer(ebo: Option<&EBO>) -> Option<u32> {
        match ebo {
            Some(ebo) => Some(ebo.id),
            None => None,
        }
    }

    /// A vertex array under a fresh name that reads its attributes from
    /// `vbos`, the buffer at place `i` through the binding `i`, and its
    /// indices from `ebo`, if there is one.
    pub fn new(gl: &mut GlQueue, vbos: &Vec<VBO>, ebo: Option<&EBO>) -> (vao: VAO)
        requires
            old(gl).has_names(1),
            vbos@.len() <= u32::MAX,
            forall|i: int| 0 <= i < vbos@.len() ==> layout_fits(#[trigger] vbos@[i].attributes@),
        ensures
            vao.id == old(gl).last_name() + 1,
            final(gl).last_name() == vao.id,
            final(gl)@ == old(gl)@ + Self::creation(
                vao.id,
                layouts(vbos@),
                Self::element_buffer(ebo),
            ),
    {
        let id = gl.fresh_name();
        let vao = VAO { id };
        gl.push(GlCommand::CreateVertexArray { vertex_array: id });
        let ghost start = gl@;
        let mut binding_index: usize = 0;
        while binding_index < vbos.len()
            invariant
                0 <= binding_index <= vbos@.len(),
                vbos@.len() <= u32::MAX,
                forall|i: int|
                    0 <= i < vbos@.len() ==> layout_fits(#[trigger] vbos@[i].attributes@),
                vao.id == id,
                gl.last_name() == id,
                gl@ == start + buffer_commands(id, layouts(vbos@), binding_index as int),
            decreases vbos@.len() - binding_index,
        {
            vao.set_attributes(gl, binding_index as u32, &vbos[binding_index]);
            binding_index += 1;
            proof {
                assert(gl@ =~= start + buffer_commands(id, layouts(vbos@), binding_index as int));
            }
        }
        match ebo {
            Some(ebo) => {
                gl.push(GlCommand::VertexArrayElementBuffer { vertex_array: id, buffer: ebo.id });
            },
            None => {},
        }
        proof {
            assert(gl@ =~= old(gl)@ + Self::creation(
                id,
                layouts(vbos@),
                Self::element_buffer(ebo),
            ));
        }
        vao
    }

    /// Binds the vertex array.
    pub fn bind(&self, gl: &mut GlQueue) -> (this: &Self)
        ensures
            *this == *self,
            final(gl).last_name() == old(gl).last_name(),
            final(gl)@ == old(gl)@.push(GlCommand::BindVertexArray { vertex_array: self.id }),
    {
        gl.push(GlCommand::BindVertexArray { vertex_array: self.id });
        self
    }

    /// Gives the vertex array up. Its buffers live on.
    pub fn delete(self, gl: &mut GlQueue)
        ensures
            final(gl).last_name() == old(gl).last_name(),
            final(gl)@ == old(gl)@.push(GlCommand::DeleteVertexArray { vertex_array: self.id }),
    {
        gl.push(GlCommand::DeleteVertexArray { vertex_array: self.id });
    }

    /// Binds no vertex array.
    pub fn unbind(&self, gl: &mut GlQueue) -> (this: &Self)
        ensures
            *this == *self,
            final(gl).last_name() == old(gl).last_name(),
            final(gl)@ == old(gl)@.push(GlCommand::BindVertexArray { vertex_array: 0 }),
    {
        gl.push(GlCommand::BindVertexArray { vertex_array: 0 });
        self
    }

    /// Wires the attributes of `vbo` to the binding `binding_index` of the
    /// vertex array, one after the other in the vertex.
    pub fn set_attributes(&self, gl: &mut GlQueue, binding_index: u32, vbo: &VBO)
        requires
            layout_fits(vbo.attributes@),
        ensures
            final(gl).last_name() == old(gl).last_name(),
            final(gl)@ == old(gl)@ + attribute_commands(
                self.id,
                binding_index,
                vbo.id,
                vbo.attributes@,
                vbo.attributes@.len() as int,
            ),
    {
        let mut offset: u32 = 0;
        let mut i: usize = 0;
        while i < vbo.attributes.len()
            invariant
                0 <= i <= vbo.attributes@.len(),
                layout_fits(vbo.attributes@),
                offset == bytes_before(vbo.attributes@, i as int),
                gl.last_name() == old(gl).last_name(),
                gl@ == old(gl)@ + attribute_commands(
                    self.id,
                    binding_index,
                    vbo.id,
                    vbo.attributes@,
                    i as int,
                ),
            decreases vbo.attributes@.len() - i,
        {
            let attribute = vbo.attributes[i];
            gl.push(
                GlCommand::EnableVertexArrayAttrib { vertex_array: self.id, index: attribute.index },
            );
            gl.push(
                GlCommand::VertexArrayAttribFormat {
                    vertex_array: self.id,
                    index: attribute.index,
                    components: attribute.components,
                    offset,
                },
            );
            gl.push(
                GlCommand::VertexArrayAttribBinding {
                    vertex_array: self.id,
                    index: attribute.index,
                    binding: binding_index,
                },
            );
            gl.push(
                GlCommand::VertexArrayVertexBuffer {
                    vertex_array: self.id,
                    binding: binding_index,
                    buffer: vbo.id,
                    components: attribute.components,
                },
            );
            proof {
                lemma_bytes_before_monotonic(
                    vbo.attributes@,
                    i as int + 1,
                    vbo.attributes@.len() as int,
                );
            }
            offset = offset + 4 * attribute.components;
            i += 1;
            proof {
                assert(gl@ =~= old(gl)@ + attribute_commands(
                    self.id,
                    binding_index,
                    vbo.id,
                    vbo.attributes@,
                    i as int,
                ));
            }
        }
    }
}

} // verus!
