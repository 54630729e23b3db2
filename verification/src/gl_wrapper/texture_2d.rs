//! Two-dimensional textures.

use crate::gl_wrapper::{GlCommand, GlQueue, TextureFormat, TextureParameter, TextureTarget};
use vstd::prelude::*;

verus! {

/// A two-dimensional texture.
#[derive(Debug)]
pub struct Texture2D {
    pub id: u32,
    pub format: TextureFormat,
    pub width: u32,
    pub height: u32,
    pub mipmap_levels: u32,
}

impl Texture2D {
    /// The layout of the texels; `Unknown` until storage is allocated.
    pub open spec fn spec_format(&self) -> TextureFormat {
        self.format
    }

    /// Width, height and number of mipmap levels of the storage.
    pub open spec fn spec_size(&self) -> (u32, u32, u32) {
        (self.width, self.height, self.mipmap_levels)
    }

    /// The commands that create the texture `id`.
    pub open spec fn creation(id: u32) -> Seq<GlCommand> {
        seq![
            GlCommand::CreateTexture { texture: id, target: TextureTarget::Texture2D },
            GlCommand::SetTextureParameter {
                texture: id,
                parameter: TextureParameter::MinFilterNearestMipmapNearest,
            },
            GlCommand::SetTextureParameter {
                texture: id,
                parameter: TextureParameter::MagFilterNearest,
            },
        ]
    }

    /// A texture under a fresh name, without storage, sampled by the nearest
    /// texel.
    pub fn new(gl: &mut GlQueue) -> (texture: Texture2D)
        requires
            old(gl).has_names(1),
        ensures
            texture.id == old(gl).last_name() + 1,
            texture.spec_format() == TextureFormat::Unknown,
            texture.spec_size() == (0u32, 0u32, 0u32),
            final(gl).last_name() == texture.id,
            final(gl)@ == old(gl)@ + Self::creation(texture.id),
    {
        let id = gl.fresh_name();
        gl.push(GlCommand::CreateTexture { texture: id, target: TextureTarget::Texture2D });
        gl.push(
            GlCommand::SetTextureParameter {
                texture: id,
                parameter: TextureParameter::MinFilterNearestMipmapNearest,
            },
        );
        gl.push(
            GlCommand::SetTextureParameter {
                texture: id,
                parameter: TextureParameter::MagFilterNearest,
            },
        );
        proof {
            assert(gl@ =~= old(gl)@ + Self::creation(id));
        }
        Texture2D { id, format: TextureFormat::Unknown, width: 0, height: 0, mipmap_levels: 0 }
    }

    /// Gives the texture storage of the given layout and size.
    pub fn allocate(
        &mut self,
        gl: &mut GlQueue,
        format: TextureFormat,
        width: u32,
        height: u32,
        mipmap_levels: u32,
    )
        requires
            format != TextureFormat::Unknown,
        ensures
            final(self).id == old(self).id,
            final(self).spec_format() == format,
            final(self).spec_size() == (width, height, mipmap_levels),
            final(gl).last_name() == old(gl).last_name(),
            final(gl)@ == old(gl)@.push(
                GlCommand::TextureStorage2D {
                    texture: old(self).id,
                    levels: mipmap_levels,
                    format,
                    width,
                    height,
                },
            ),
    {
        gl.push(
            GlCommand::TextureStorage2D {
                texture: self.id,
                levels: mipmap_levels,
                format,
                width,
                height,
            },
        );
        self.format = format;
        self.width = width;
        self.height = height;
        self.mipmap_levels = mipmap_levels;
    }

    /// The commands that copy a picture into the texture `id`.
    pub open spec fn upload(
        id: u32,
        format: TextureFormat,
        xoffset: u32,
        yoffset: u32,
        width: u32,
        height: u32,
        pixels: Vec<u8>,
    ) -> Seq<GlCommand> {
        seq![
            GlCommand::TextureSubImage2D {
                texture: id,
                xoffset,
                yoffset,
                width,
                height,
                format,
                pixels,
            },
            GlCommand::GenerateTextureMipmap { texture: id },
        ]
    }

    /// Copies the picture of `width` by `height` texels that `pixels` holds
    /// into the texture, its corner at the given offsets, and renews the
    /// mipmaps. The texture must hold colour texels.
    pub fn update(
        &mut self,
        gl: &mut GlQueue,
        xoffset: u32,
        yoffset: u32,
        width: u32,
        height: u32,
        pixels: Vec<u8>,
    )
        requires
            old(self).spec_format().is_color(),
        ensures
            *final(self) == *old(self),
            final(gl).last_name() == old(gl).last_name(),
            final(gl)@ == old(gl)@ + Self::upload(
                old(self).id,
                old(self).spec_format(),
                xoffset,
                yoffset,
                width,
                height,
                pixels,
            ),
    {
        gl.push(
            GlCommand::TextureSubImage2D {
                texture: self.id,
                xoffset,
                yoffset,
                width,
                height,
                format: self.format,
                pixels,
            },
        );
        gl.push(GlCommand::GenerateTextureMipmap { texture: self.id });
        proof {
            assert(gl@ =~= old(gl)@ + Self::upload(
                self.id,
                self.format,
                xoffset,
                yoffset,
                width,
                height,
                pixels,
            ));
        }
    }

    /// The commands that bind the texture `id` to the texture unit `unit`.
    pub open spec fn activation(id: u32, unit: u32) -> Seq<GlCommand> {
        seq![
            GlCommand::ActiveTexture { unit },
            GlCommand::BindTexture { target: TextureTarget::Texture2D, texture: id },
        ]
    }

    /// Makes `unit` the active texture unit and binds the texture to it.
    pub fn activate(&self, gl: &mut GlQueue, unit: u32) -> (this: &Self)
        ensures
            *this == *self,
            final(gl).last_name() == old(gl).last_name(),
            final(gl)@ == old(gl)@ + Self::activation(self.id, unit),
    {
        gl.push(GlCommand::ActiveTexture { unit });
        gl.push(GlCommand::BindTexture { target: TextureTarget::Texture2D, texture: self.id });
        proof {
            assert(gl@ =~= old(gl)@ + Self::activation(self.id, unit));
        }
        self
    }

    /// Gives the texture up.
    pub fn delete(self, gl: &mut GlQueue)
        ensures
            final(gl).last_name() == old(gl).last_name(),
            final(gl)@ == old(gl)@.push(GlCommand::DeleteTexture { texture: self.id }),
    {
        gl.push(GlCommand::DeleteTexture { texture: self.id });
    }

    /// Binds no texture to the active texture unit.
    pub fn unbind(&self, gl: &mut GlQueue) -> (this: &Self)
        ensures
            *this == *self,
            final(gl).last_name() == old(gl).last_name(),
            final(gl)@ == old(gl)@.push(
                GlCommand::BindTexture { target: TextureTarget::Texture2D, texture: 0 },
            ),
    {
        gl.push(GlCommand::BindTexture { target: TextureTarget::Texture2D, texture: 0 });
        self
    }
}

} // verus!
