//! Element buffers: the indices of a mesh.

use crate::gl_wrapper::{BufferTarget, BufferUpdateFrequency, GlCommand, GlQueue};
use vstd::prelude::*;

verus! {

/// A buffer of vertex indices.
#[derive(Debug)]
pub struct EBO {
    pub id: u32,
    pub length: usize,
}

impl EBO {
    /// Number of indices in the storage of the buffer.
    pub open spec fn spec_len(&self) -> usize {
        self.length
    }

    /// A buffer under a fresh name, without storage.
    pub fn new(gl: &mut GlQueue) -> (ebo: EBO)
        requires
            old(gl).has_names(1),
        ensures
            ebo.id == old(gl).last_name() + 1,
            ebo.spec_len() == 0,
            final(gl).last_name() == ebo.id,
            final(gl)@ == old(gl)@.push(GlCommand::CreateBuffer { buffer: ebo.id }),
    {
        let id = gl.fresh_name();
        gl.push(GlCommand::CreateBuffer { buffer: id });
        EBO { id, length: 0 }
    }

    /// Gives the buffer storage for `elements` indices, uninitialised.
    pub fn allocate(
        &mut self,
        gl: &mut GlQueue,
        elements: usize,
        update_frequency: BufferUpdateFrequency,
    )
        ensures
            final(self).id == old(self).id,
            final(self).spec_len() == elements,
            final(gl).last_name() == old(gl).last_name(),
            final(gl)@ == old(gl)@.push(
                GlCommand::BufferStorage {
                    buffer: old(self).id,
                    words: elements,
                    usage: update_frequency,
                },
            ),
    {
        self.length = elements;
        gl.push(
            GlCommand::BufferStorage { buffer: self.id, words: elements, usage: update_frequency },
        );
    }

    /// Gives the buffer storage that holds `data`.
    pub fn with(&mut self, gl: &mut GlQueue, data: Vec<u32>, update_frequency: BufferUpdateFrequency)
        ensures
            final(self).id == old(self).id,
            final(self).spec_len() == data@.len(),
            final(gl).last_name() == old(gl).last_name(),
            final(gl)@ == old(gl)@.push(
                GlCommand::BufferData { buffer: old(self).id, data, usage: update_frequency },
            ),
    {
        self.length = data.len();
        gl.push(GlCommand::BufferData { buffer: self.id, data, usage: update_frequency });
    }

    /// Overwrites the indices from `offset` on with `data`.
    pub fn update(&mut self, gl: &mut GlQueue, offset: usize, data: Vec<u32>)
        ensures
            *final(self) == *old(self),
            final(gl).last_name() == old(gl).last_name(),
            final(gl)@ == old(gl)@.push(
                GlCommand::BufferSubData { buffer: old(self).id, offset, data },
            ),
    {
        gl.push(GlCommand::BufferSubData { buffer: self.id, offset, data });
    }

    /// Binds the buffer as the element buffer.
    pub fn bind(&self, gl: &mut GlQueue) -> (this: &Self)
        ensures
            *this == *self,
            final(gl).last_name() == old(gl).last_name(),
            final(gl)@ == old(gl)@.push(
                GlCommand::BindBuffer { target: BufferTarget::ElementArray, buffer: self.id },
            ),
    {
        gl.push(GlCommand::BindBuffer { target: BufferTarget::ElementArray, buffer: self.id });
        self
    }

    /// Number of indices in the storage of the buffer.
    pub fn len(&self) -> (length: usize)
        ensures
            length == self.spec_len(),
    {
        self.length
    }
}

} // verus!
