//! Cube maps: six pictures that surround the scene.

use crate::gl_wrapper::{GlCommand, GlQueue, TextureParameter, TextureTarget};
use vstd::prelude::*;

verus! {

/// A cube map.
#[derive(Debug)]
pub struct TextureCubeMap {
    pub id: u32,
}

/// The picture of one face of a cube map: rows of RGB texels.
#[derive(Debug)]
pub struct FaceImage {
    pub width: u32,
    pub height: u32,
    pub pixels: Vec<u8>,
}

impl TextureCubeMap {
    /// The commands that copy the first `n` of `faces` into the layers of
    /// the texture `id`. Every layer has the size of the first face.
    pub open spec fn face_uploads(id: u32, faces: Seq<FaceImage>, n: int) -> Seq<GlCommand>
        decreases n,
    {
        if n <= 0 {
            Seq::empty()
        } else {
            Self::face_uploads(id, faces, n - 1).push(
                GlCommand::TextureSubImage3D {
                    texture: id,
                    layer: (n - 1) as u32,
                    width: faces[0].width,
                    height: faces[0].height,
                    pixels: faces[n - 1].pixels,
                },
            )
        }
    }

    /// The commands that set how the texture `id` is sampled.
    pub open spec fn sampling(id: u32) -> Seq<GlCommand> {
        seq![
            GlCommand::SetTextureParameter {
                texture: id,
                parameter: TextureParameter::MinFilterNearest,
            },
            GlCommand::SetTextureParameter {
                texture: id,
                parameter: TextureParameter::MagFilterNearest,
            },
            GlCommand::SetTextureParameter {
                texture: id,
                parameter: TextureParameter::WrapSClampToEdge,
            },
            GlCommand::SetTextureParameter {
                texture: id,
                parameter: TextureParameter::WrapTClampToEdge,
            },
            GlCommand::SetTextureParameter {
                texture: id,
                parameter: TextureParameter::WrapRClampToEdge,
            },
        ]
    }

    /// The commands that create the cube map `id` from `faces`.
    pub open spec fn creation(id: u32, faces: Seq<FaceImage>) -> Seq<GlCommand> {
        seq![
            GlCommand::CreateTexture { texture: id, target: TextureTarget::CubeMapArray },
            GlCommand::TextureStorage3D {
                texture: id,
                width: faces[0].width,
                height: faces[0].height,
                layers: 6,
            },
        ] + Self::face_uploads(id, faces, 6) + Self::sampling(id)
    }

    /// A cube map under a fresh name made of the six given faces: right,
    /// left, top, bottom, front, back. The first face sets the size of all.
    pub fn new(gl: &mut GlQueue, faces: Vec<FaceImage>) -> (texture: TextureCubeMap)
        requires
            old(gl).has_names(1),
            faces@.len() == 6,
        ensures
            texture.id == old(gl).last_name() + 1,
            final(gl).last_name() == texture.id,
            final(gl)@ == old(gl)@ + Self::creation(texture.id, faces@),
    {
        let id = gl.fresh_name();
        let ghost all = faces@;
        let width = faces[0].width;
        let height = faces[0].height;
        gl.push(GlCommand::CreateTexture { texture: id, target: TextureTarget::CubeMapArray });
        gl.push(GlCommand::TextureStorage3D { texture: id, width, height, layers: 6 });
        let ghost start = gl@;
        let mut faces = faces;
        let mut rest: Vec<FaceImage> = Vec::new();
        // the faces leave `faces` from its end: turn them round first
        while faces.len() > 0
            invariant
                faces@.len() + rest@.len() == 6,
                forall|i: int| 0 <= i < faces@.len() ==> faces@[i] == all[i],
                forall|i: int| 0 <= i < rest@.len() ==> rest@[i] == all[5 - i],
                gl@ == start,
                gl.last_name() == id,
            decreases faces@.len(),
        {
            let face = faces.pop().unwrap();
            rest.push(face);
        }
        let mut layer: u32 = 0;
        while rest.len() > 0
            invariant
                layer + rest@.len() == 6,
                forall|i: int| 0 <= i < rest@.len() ==> rest@[i] == all[5 - i],
                gl@ == start + Self::face_uploads(id, all, layer as int),
                gl.last_name() == id,
                width == all[0].width,
                height == all[0].height,
            decreases rest@.len(),
        {
            let face = rest.pop().unwrap();
            gl.push(
                GlCommand::TextureSubImage3D {
                    texture: id,
                    layer,
                    width,
                    height,
                    pixels: face.pixels,
                },
            );
            layer += 1;
            proof {
                assert(gl@ =~= start + Self::face_uploads(id, all, layer as int));
            }
        }
        gl.push(
            GlCommand::SetTextureParameter {
                texture: id,
                parameter: TextureParameter::MinFilterNearest,
            },
        );
        gl.push(
            GlCommand::SetTextureParameter {
                texture: id,
                parameter: TextureParameter::MagFilterNearest,
            },
        );
        gl.push(
            GlCommand::SetTextureParameter {
                texture: id,
                parameter: TextureParameter::WrapSClampToEdge,
            },
        );
        gl.push(
            GlCommand::SetTextureParameter {
                texture: id,
                parameter: TextureParameter::WrapTClampToEdge,
            },
        );
        gl.push(
            GlCommand::SetTextureParameter {
                texture: id,
                parameter: TextureParameter::WrapRClampToEdge,
            },
        );
        proof {
            assert(gl@ =~= old(gl)@ + Self::creation(id, all));
        }
        TextureCubeMap { id }
    }

    /// Gives the cube map up.
    pub fn delete(self, gl: &mut GlQueue)
        ensures
            final(gl).last_name() == old(gl).last_name(),
            final(gl)@ == old(gl)@.push(GlCommand::DeleteTexture { texture: self.id }),
    {
        gl.push(GlCommand::DeleteTexture { texture: self.id });
    }

    /// Makes `unit` the active texture unit.
    pub fn activate(gl: &mut GlQueue, unit: u32)
        ensures
            final(gl).last_name() == old(gl).last_name(),
            final(gl)@ == old(gl)@.push(GlCommand::ActiveTexture { unit }),
    {
        gl.push(GlCommand::ActiveTexture { unit });
    }

    /// Binds the cube map to the active texture unit.
    pub fn bind(&self, gl: &mut GlQueue) -> (this: &Self)
        ensures
            *this == *self,
            final(gl).last_name() == old(gl).last_name(),
            final(gl)@ == old(gl)@.push(
                GlCommand::BindTexture { target: TextureTarget::CubeMapArray, texture: self.id },
            ),
    {
        gl.push(GlCommand::BindTexture { target: TextureTarget::CubeMapArray, texture: self.id });
        self
    }
}

} // verus!
