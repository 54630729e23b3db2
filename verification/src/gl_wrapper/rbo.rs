//! Renderbuffers: storage that a framebuffer draws into and nobody samples.

use crate::gl_wrapper::{GlCommand, GlQueue};
use vstd::prelude::*;

verus! {

/// A renderbuffer.
#[derive(Debug)]
pub struct RBO {
    pub id: u32,
}

impl RBO {
    /// A renderbuffer under a fresh name, without storage.
    pub fn new(gl: &mut GlQueue) -> (rbo: RBO)
        requires
            old(gl).has_names(1),
        ensures
            rbo.id == old(gl).last_name() + 1,
            final(gl).last_name() == rbo.id,
            final(gl)@ == old(gl)@.push(GlCommand::CreateRenderbuffer { renderbuffer: rbo.id }),
    {
        let id = gl.fresh_name();
        gl.push(GlCommand::CreateRenderbuffer { renderbuffer: id });
        RBO { id }
    }

    /// Binds the renderbuffer.
    pub fn bind(&self, gl: &mut GlQueue)
        ensures
            final(gl).last_name() == old(gl).last_name(),
            final(gl)@ == old(gl)@.push(GlCommand::BindRenderbuffer { renderbuffer: self.id }),
    {
        gl.push(GlCommand::BindRenderbuffer { renderbuffer: self.id });
    }

    /// Gives the renderbuffer up.
    pub fn delete(self, gl: &mut GlQueue)
        ensures
            final(gl).last_name() == old(gl).last_name(),
            final(gl)@ == old(gl)@.push(GlCommand::DeleteRenderbuffer { renderbuffer: self.id }),
    {
        gl.push(GlCommand::DeleteRenderbuffer { renderbuffer: self.id });
    }

    /// Gives the renderbuffer storage for depth and stencil values of a
    /// picture of the given size.
    pub fn create_depth_stencil(&self, gl: &mut GlQueue, width: i32, height: i32)
        ensures
            final(gl).last_name() == old(gl).last_name(),
            final(gl)@ == old(gl)@.push(
                GlCommand::RenderbufferDepthStencil { renderbuffer: self.id, width, height },
            ),
    {
        gl.push(GlCommand::RenderbufferDepthStencil { renderbuffer: self.id, width, height });
    }
}

} // verus!
