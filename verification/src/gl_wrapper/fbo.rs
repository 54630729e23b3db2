//! Framebuffers: the targets of a render pass.

use crate::gl_wrapper::rbo::RBO;
use crate::gl_wrapper::texture_2d::Texture2D;
use crate::gl_wrapper::{Attachment, GlCommand, GlQueue};
use vstd::prelude::*;

verus! {

/// Where a framebuffer keeps its depth and stencil values.
#[derive(Debug)]
pub enum DepthStencilTarget {
    Texture2D(Texture2D),
    RBO(RBO),
}

/// An offscreen framebuffer with its colour texture.
#[derive(Debug)]
pub struct FBO {
    pub id: u32,
    pub color_texture: Texture2D,
    pub depth_stencil_target: DepthStencilTarget,
}

impl FBO {
    /// The command that attaches the depth and stencil target.
    pub open spec fn depth_stencil_attachment(id: u32, target: DepthStencilTarget) -> GlCommand {
        match target {
            DepthStencilTarget::Texture2D(texture) => GlCommand::FramebufferTexture {
                framebuffer: id,
                attachment: Attachment::DepthStencil,
                texture: texture.id,
            },
            DepthStencilTarget::RBO(rbo) => GlCommand::FramebufferRenderbuffer {
                framebuffer: id,
                attachment: Attachment::DepthStencil,
                renderbuffer: rbo.id,
            },
        }
    }

    /// The commands that create the framebuffer `id` on the given targets.
    pub open spec fn creation(id: u32, color: u32, target: DepthStencilTarget) -> Seq<GlCommand> {
        seq![
            GlCommand::CreateFramebuffer { framebuffer: id },
            GlCommand::FramebufferTexture {
                framebuffer: id,
                attachment: Attachment::Color0,
                texture: color,
            },
            Self::depth_stencil_attachment(id, target),
            GlCommand::CheckFramebuffer { framebuffer: id },
        ]
    }

    /// A framebuffer under a fresh name that draws into the given targets.
    /// Carrying the commands out fails where the framebuffer is incomplete.
    pub fn new(
        gl: &mut GlQueue,
        color_texture: Texture2D,
        depth_stencil_target: DepthStencilTarget,
    ) -> (fbo: FBO)
        requires
            old(gl).has_names(1),
        ensures
            fbo.id == old(gl).last_name() + 1,
            fbo.color_texture == color_texture,
            fbo.depth_stencil_target == depth_stencil_target,
            final(gl).last_name() == fbo.id,
            final(gl)@ == old(gl)@ + Self::creation(
                fbo.id,
                color_texture.id,
                depth_stencil_target,
            ),
    {
        let id = gl.fresh_name();
        gl.push(GlCommand::CreateFramebuffer { framebuffer: id });
        gl.push(
            GlCommand::FramebufferTexture {
                framebuffer: id,
                attachment: Attachment::Color0,
                texture: color_texture.id,
            },
        );
        match &depth_stencil_target {
            DepthStencilTarget::Texture2D(texture) => {
                gl.push(
                    GlCommand::FramebufferTexture {
                        framebuffer: id,
                        attachment: Attachment::DepthStencil,
                        texture: texture.id,
                    },
                );
            },
            DepthStencilTarget::RBO(rbo) => {
                gl.push(
                    GlCommand::FramebufferRenderbuffer {
                        framebuffer: id,
                        attachment: Attachment::DepthStencil,
                        renderbuffer: rbo.id,
                    },
                );
            },
        }
        gl.push(GlCommand::CheckFramebuffer { framebuffer: id });
        proof {
            assert(gl@ =~= old(gl)@ + Self::creation(id, color_texture.id, depth_stencil_target));
        }
        FBO { id, color_texture, depth_stencil_target }
    }

    /// Makes the framebuffer the target of what is drawn next.
    pub fn bind(&self, gl: &mut GlQueue)
        ensures
            final(gl).last_name() == old(gl).last_name(),
            final(gl)@ == old(gl)@.push(GlCommand::BindFramebuffer { framebuffer: self.id }),
    {
        gl.push(GlCommand::BindFramebuffer { framebuffer: self.id });
    }

    /// Gives the framebuffer up. Its targets live on.
    pub fn delete(self, gl: &mut GlQueue) -> (targets: (Texture2D, DepthStencilTarget))
        ensures
            targets.0 == self.color_texture,
            targets.1 == self.depth_stencil_target,
            final(gl).last_name() == old(gl).last_name(),
            final(gl)@ == old(gl)@.push(GlCommand::DeleteFramebuffer { framebuffer: self.id }),
    {
        gl.push(GlCommand::DeleteFramebuffer { framebuffer: self.id });
        (self.color_texture, self.depth_stencil_target)
    }

    /// Makes the visible surface the target of what is drawn next.
    pub fn bind_default(gl: &mut GlQueue)
        ensures
            final(gl).last_name() == old(gl).last_name(),
            final(gl)@ == old(gl)@.push(GlCommand::BindFramebuffer { framebuffer: 0 }),
    {
        gl.push(GlCommand::BindFramebuffer { framebuffer: 0 });
    }
}

} // verus!
