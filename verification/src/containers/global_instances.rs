//! Turning the data of model files into meshes and materials.
//!
//! Reading files is not done here. The host reads a model and its pictures
//! and hands the numbers in; what is built from them, and what a material
//! falls back to where the model leaves something out, is decided here.

use crate::ecs::components::{Material, Mesh, MeshRenderer};
use crate::gl_wrapper::ebo::EBO;
use crate::gl_wrapper::texture_2d::Texture2D;
use crate::gl_wrapper::vao::{layouts, lemma_single_attribute_fits, BufferLayout, VAO};
use crate::gl_wrapper::vbo::{VertexAttribute, VBO};
use crate::gl_wrapper::{BufferUpdateFrequency, GlCommand, GlQueue, TextureFormat};
use crate::math::{Real, Vec3};
use crate::shaders::diffuse::{DiffuseData, PixelData};
use std::sync::Arc;
use vstd::prelude::*;

verus! {

/// The geometry of a model as its file gives it: scalars by their bit
/// patterns, three per position and normal, two per texture coordinate.
#[derive(Debug)]
pub struct ModelData {
    pub positions: Vec<u32>,
    pub texcoords: Vec<u32>,
    pub normals: Vec<u32>,
    pub indices: Vec<u32>,
}

/// The material of a model as its file gives it.
#[derive(Debug)]
pub struct MaterialData {
    pub diffuse: Vec3,
    pub specular: Vec3,
    pub shininess: Real,
}

/// The textures of a material that the host has loaded. A texture that the
/// model does not name, or names with the empty name, is `None`.
#[derive(Debug)]
pub struct MaterialTextures {
    pub diffuse: Option<Arc<Texture2D>>,
    pub specular: Option<Arc<Texture2D>>,
    pub normal: Option<Arc<Texture2D>>,
}

/// How a picture stores a texel.
#[derive(Clone, Copy, Debug, PartialEq, Eq, Structural)]
pub enum ImageColor {
    /// Red, green and blue, eight bits each.
    Rgb8,
    /// Red, green, blue and alpha, eight bits each.
    Rgba8,
    /// Any other layout. Textures cannot be made of it.
    Other,
}

/// Number of mipmap levels of a texture that was made from a picture.
pub const TEXTURE_LEVELS: u32 = 8;

/// The layout of the texels of a texture that is made from a picture.
pub open spec fn format_of(color: ImageColor) -> TextureFormat {
    if color == ImageColor::Rgb8 {
        TextureFormat::RGB
    } else {
        TextureFormat::RGBA
    }
}

/// A texture that holds the picture of `width` by `height` texels in
/// `pixels`, with eight levels of mipmaps.
pub fn texture_from_image(
    gl: &mut GlQueue,
    color: ImageColor,
    width: u32,
    height: u32,
    pixels: Vec<u8>,
) -> (texture: Texture2D)
    requires
        old(gl).has_names(1),
        color != ImageColor::Other,
    ensures
        texture.id == old(gl).last_name() + 1,
        texture.format == format_of(color),
        texture.width == width,
        texture.height == height,
        texture.mipmap_levels == TEXTURE_LEVELS,
        final(gl).last_name() == texture.id,
        final(gl)@ == old(gl)@ + Texture2D::creation(texture.id) + seq![
            GlCommand::TextureStorage2D {
                texture: texture.id,
                levels: TEXTURE_LEVELS,
                format: format_of(color),
                width,
                height,
            },
        ] + Texture2D::upload(texture.id, format_of(color), 0, 0, width, height, pixels),
{
    let mut t = Texture2D::new(gl);
    let format = match color {
        ImageColor::Rgb8 => TextureFormat::RGB,
        _ => TextureFormat::RGBA,
    };
    t.allocate(gl, format, width, height, TEXTURE_LEVELS);
    t.update(gl, 0, 0, width, height, pixels);
    proof {
        assert(gl@ =~= old(gl)@ + Texture2D::creation(t.id) + seq![
            GlCommand::TextureStorage2D {
                texture: t.id,
                levels: TEXTURE_LEVELS,
                format: format_of(color),
                width,
                height,
            },
        ] + Texture2D::upload(t.id, format_of(color), 0, 0, width, height, pixels));
    }
    t
}

/// Builds what the renderer draws from what model files hold.
#[derive(Clone, Copy, Debug, Default)]
pub struct ModelLoader;

/// A copy of `words`.
fn copy_of(words: &Vec<u32>) -> (copy: Vec<u32>)
    ensures
        copy@ == words@,
{
    let mut copy: Vec<u32> = Vec::new();
    let mut i: usize = 0;
    while i < words.len()
        invariant
            0 <= i <= words@.len(),
            copy@ == words@.subrange(0, i as int),
        decreases words@.len() - i,
    {
        copy.push(words[i]);
        i += 1;
        proof {
            assert(copy@ =~= words@.subrange(0, i as int));
        }
    }
    proof {
        assert(words@.subrange(0, words@.len() as int) =~= words@);
    }
    copy
}

/// A buffer that holds `data`, one attribute of `components` scalars per
/// vertex at the index `index`.
fn filled_buffer(gl: &mut GlQueue, index: u32, components: u32, data: Vec<u32>) -> (vbo: VBO)
    requires
        old(gl).has_names(1),
    ensures
        vbo.id == old(gl).last_name() + 1,
        vbo.attributes@ == seq![VertexAttribute { index, components }],
        final(gl).last_name() == vbo.id,
        final(gl)@ == old(gl)@ + seq![
            GlCommand::CreateBuffer { buffer: vbo.id },
            GlCommand::BufferData { buffer: vbo.id, data, usage: BufferUpdateFrequency::Never },
        ],
{
    let mut attributes: Vec<VertexAttribute> = Vec::new();
    attributes.push(VertexAttribute { index, components });
    let mut vbo = VBO::new(gl, attributes);
    vbo.with(gl, data, BufferUpdateFrequency::Never);
    proof {
        assert(vbo.attributes@ =~= seq![VertexAttribute { index, components }]);
        assert(gl@ =~= old(gl)@ + seq![
            GlCommand::CreateBuffer { buffer: vbo.id },
            GlCommand::BufferData { buffer: vbo.id, data, usage: BufferUpdateFrequency::Never },
        ]);
    }
    vbo
}

impl ModelLoader {
    /// The commands that upload a mesh in a queue whose last name is
    /// `last_name`: the indices under the next name; then positions (three
    /// scalars at index 0), texture coordinates (two at index 1) and normals
    /// (three at index 2) under the three names after it; then the vertex
    /// array over all of them.
    pub open spec fn mesh_upload(last_name: u32, model: ModelData) -> Seq<GlCommand> {
        let indices = (last_name + 1) as u32;
        let positions = (last_name + 2) as u32;
        let texcoords = (last_name + 3) as u32;
        let normals = (last_name + 4) as u32;
        seq![
            GlCommand::CreateBuffer { buffer: indices },
            GlCommand::BufferData {
                buffer: indices,
                data: model.indices,
                usage: BufferUpdateFrequency::Never,
            },
            GlCommand::CreateBuffer { buffer: positions },
            GlCommand::BufferData {
                buffer: positions,
                data: model.positions,
                usage: BufferUpdateFrequency::Never,
            },
            GlCommand::CreateBuffer { buffer: texcoords },
            GlCommand::BufferData {
                buffer: texcoords,
                data: model.texcoords,
                usage: BufferUpdateFrequency::Never,
            },
            GlCommand::CreateBuffer { buffer: normals },
            GlCommand::BufferData {
                buffer: normals,
                data: model.normals,
                usage: BufferUpdateFrequency::Never,
            },
        ] + VAO::creation(
            (last_name + 5) as u32,
            seq![
                BufferLayout {
                    buffer: positions,
                    attributes: seq![VertexAttribute { index: 0, components: 3 }],
                },
                BufferLayout {
                    buffer: texcoords,
                    attributes: seq![VertexAttribute { index: 1, components: 2 }],
                },
                BufferLayout {
                    buffer: normals,
                    attributes: seq![VertexAttribute { index: 2, components: 3 }],
                },
            ],
            Some(indices),
        )
    }

    /// Uploads the geometry of `model` and keeps a copy of it.
    pub fn load_mesh(gl: &mut GlQueue, model: ModelData) -> (mesh: Mesh)
        requires
            old(gl).has_names(5),
        ensures
            mesh.vao.id == old(gl).last_name() + 5,
            mesh.positions@ == model.positions@,
            mesh.indices@ == model.indices@,
            mesh.normals@ == model.normals@,
            mesh.texcoords@ == model.texcoords@,
            final(gl).last_name() == mesh.vao.id,
            final(gl)@ == old(gl)@ + Self::mesh_upload(old(gl).last_name(), model),
    {
        let positions = copy_of(&model.positions);
        let indices = copy_of(&model.indices);
        let normals = copy_of(&model.normals);
        let texcoords = copy_of(&model.texcoords);
        let mut ebo = EBO::new(gl);
        ebo.with(gl, model.indices, BufferUpdateFrequency::Never);
        let ghost after_indices = gl@;
        let mut vbos: Vec<VBO> = Vec::new();
        // positions
        vbos.push(filled_buffer(gl, 0, 3, model.positions));
        // texcoords
        vbos.push(filled_buffer(gl, 1, 2, model.texcoords));
        // normals
        vbos.push(filled_buffer(gl, 2, 3, model.normals));
        proof {
            lemma_single_attribute_fits(vbos@[0].attributes@);
            lemma_single_attribute_fits(vbos@[1].attributes@);
            lemma_single_attribute_fits(vbos@[2].attributes@);
        }
        let vao = VAO::new(gl, &vbos, Some(&ebo));
        proof {
            let last_name = old(gl).last_name();
            assert(layouts(vbos@) =~= seq![
                BufferLayout {
                    buffer: (last_name + 2) as u32,
                    attributes: seq![VertexAttribute { index: 0, components: 3 }],
                },
                BufferLayout {
                    buffer: (last_name + 3) as u32,
                    attributes: seq![VertexAttribute { index: 1, components: 2 }],
                },
                BufferLayout {
                    buffer: (last_name + 4) as u32,
                    attributes: seq![VertexAttribute { index: 2, components: 3 }],
                },
            ]);
            assert(gl@ =~= old(gl)@ + Self::mesh_upload(last_name, model));
        }
        Mesh { vao, positions, indices, normals, texcoords }
    }

    /// One channel of a material: the texture where the host has loaded
    /// one, else the colour of the model.
    pub open spec fn channel(texture: Option<Arc<Texture2D>>, color: Vec3) -> PixelData {
        match texture {
            Some(texture) => PixelData::Texture(texture),
            None => PixelData::Color(color),
        }
    }

    /// What a material is made of: for each of the diffuse and the
    /// specular channel the texture where there is one, else the colour of
    /// the model; the normal map where there is one; the shininess of the
    /// model. A model without a material gets the default material.
    pub open spec fn material_of(
        material: Option<MaterialData>,
        textures: MaterialTextures,
    ) -> DiffuseData {
        match material {
            Some(material) => DiffuseData {
                diffuse: Self::channel(textures.diffuse, material.diffuse),
                specular: Self::channel(textures.specular, material.specular),
                normal: textures.normal,
                shininess: material.shininess,
            },
            None => DiffuseData::spec_default(),
        }
    }

    /// The material that the model is drawn with: see
    /// [`ModelLoader::material_of`].
    pub fn load_material(material: Option<MaterialData>, textures: MaterialTextures) -> (loaded:
        Material)
        ensures
            loaded.shader_data == Self::material_of(material, textures),
    {
        let shader_data = match material {
            Some(material) => {
                // Load diffuse
                let diffuse = match textures.diffuse {
                    None => PixelData::Color(material.diffuse),
                    Some(texture) => PixelData::Texture(texture),
                };
                // Load specular
                let specular = match textures.specular {
                    None => PixelData::Color(material.specular),
                    Some(texture) => PixelData::Texture(texture),
                };
                // Load normal
                let normal = textures.normal;
                let shininess = material.shininess;
                DiffuseData { diffuse, specular, normal, shininess }
            },
            None => DiffuseData::default(),
        };
        Material { shader_data }
    }

    /// The mesh and the material of a model, ready to be given to
    /// entities.
    pub fn load(
        &self,
        gl: &mut GlQueue,
        model: ModelData,
        material: Option<MaterialData>,
        textures: MaterialTextures,
    ) -> (renderer: MeshRenderer)
        requires
            old(gl).has_names(5),
        ensures
            renderer.mesh.vao.id == old(gl).last_name() + 5,
            renderer.mesh.positions@ == model.positions@,
            renderer.mesh.indices@ == model.indices@,
            renderer.mesh.normals@ == model.normals@,
            renderer.mesh.texcoords@ == model.texcoords@,
            renderer.material.shader_data == Self::material_of(material, textures),
            final(gl).last_name() == old(gl).last_name() + 5,
            final(gl)@ == old(gl)@ + Self::mesh_upload(old(gl).last_name(), model),
    {
        let mesh = Self::load_mesh(gl, model);
        let material = Self::load_material(material, textures);
        MeshRenderer { mesh: Arc::new(mesh), material: Arc::new(material) }
    }
}

} // verus!
