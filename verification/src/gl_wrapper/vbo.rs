//! Vertex buffers: the attributes of the vertices of a mesh.

use crate::gl_wrapper::{BufferTarget, BufferUpdateFrequency, GlCommand, GlQueue};
use vstd::prelude::*;

verus! {

/// One attribute of a vertex: where the shader finds it, and of how many
/// scalars it is made.
#[derive(Debug, Clone, Copy, PartialEq, Eq, Structural)]
pub struct VertexAttribute {
    pub index: u32,
    pub components: u32,
}

/// A buffer of vertex data: scalars, by their bit patterns.
#[derive(Debug)]
pub struct VBO {
    pub id: u32,
    pub length: usize,
    pub attributes: Vec<VertexAttribute>,
}

impl VBO {
    /// Number of scalars in the storage of the buffer.
    pub open spec fn spec_len(&self) -> usize {
        self.length
    }

    /// A buffer under a fresh name, without storage, whose vertices have the
    /// given attributes.
    pub fn new(gl: &mut GlQueue, attributes: Vec<VertexAttribute>) -> (vbo: VBO)
        requires
            old(gl).has_names(1),
        ensures
            vbo.id == old(gl).last_name() + 1,
            vbo.spec_len() == 0,
            vbo.attributes == attributes,
            final(gl).last_name() == vbo.id,
            final(gl)@ == old(gl)@.push(GlCommand::CreateBuffer { buffer: vbo.id }),
    {
        let id = gl.fresh_name();
        gl.push(GlCommand::CreateBuffer { buffer: id });
        VBO { id, length: 0, attributes }
    }

    /// Gives the buffer storage for `elements` scalars, uninitialised.
    pub fn allocate(
        &mut self,
        gl: &mut GlQueue,
        elements: usize,
        update_frequency: BufferUpdateFrequency,
    )
        ensures
            final(self).id == old(self).id,
            final(self).attributes == old(self).attributes,
            final(self).spec_len() == elements,
            final(gl).last_name() == old(gl).last_name(),
            final(gl)@ == old(gl)@.push(
                GlCommand::BufferStorage {
                    buffer: old(self).id,
                    words: elements,
                    usage: update_frequency,
                },
            ),
    {
        self.length = elements;
        gl.push(
            GlCommand::BufferStorage { buffer: self.id, words: elements, usage: update_frequency },
        );
    }

    /// Gives the buffer storage that holds `data`.
    pub fn with(&mut self, gl: &mut GlQueue, data: Vec<u32>, update_frequency: BufferUpdateFrequency)
        ensures
            final(self).id == old(self).id,
            final(self).attributes == old(self).attributes,
            final(self).spec_len() == data@.len(),
            final(gl).last_name() == old(gl).last_name(),
            final(gl)@ == old(gl)@.push(
                GlCommand::BufferData { buffer: old(self).id, data, usage: update_frequency },
            ),
    {
        self.length = data.len();
        gl.push(GlCommand::BufferData { buffer: self.id, data, usage: update_frequency });
    }

    /// Overwrites the scalars from `offset` on with `data`.
    pub fn update(&mut self, gl: &mut GlQueue, offset: usize, data: Vec<u32>)
        ensures
            *final(self) == *old(self),
            final(gl).last_name() == old(gl).last_name(),
            final(gl)@ == old(gl)@.push(
                GlCommand::BufferSubData { buffer: old(self).id, offset, data },
            ),
    {
        gl.push(GlCommand::BufferSubData { buffer: self.id, offset, data });
    }

    /// Binds the buffer as the vertex buffer.
    pub fn bind(&self, gl: &mut GlQueue) -> (this: &Self)
        ensures
            *this == *self,
            final(gl).last_name() == old(gl).last_name(),
            final(gl)@ == old(gl)@.push(
                GlCommand::BindBuffer { target: BufferTarget::Array, buffer: self.id },
            ),
    {
        gl.push(GlCommand::BindBuffer { target: BufferTarget::Array, buffer: self.id });
        self
    }

    /// Number of scalars in the storage of the buffer.
    pub fn len(&self) -> (length: usize)
        ensures
            length == self.spec_len(),
    {
        self.length
    }
}

} // verus!
