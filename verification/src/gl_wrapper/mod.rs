//! The graphics layer.
//!
//! Nothing here talks to a graphics driver. Every operation on a GPU object
//! is recorded as a [`GlCommand`] in a [`GlQueue`], in the order in which it
//! was asked for; whoever owns the graphics context takes the commands out
//! of the queue and carries them out. Objects are known by names that the
//! queue hands out, so that an object can be used in the same batch of
//! commands that creates it.

pub mod ebo;
pub mod fbo;
pub mod rbo;
pub mod shader_compilation;
pub mod texture_2d;
pub mod texture_cube_map;
pub mod ubo;
pub mod vao;
pub mod vbo;

use crate::math::{Mat4, Real, Vec3};
use std::sync::Arc;
use vstd::prelude::*;

verus! {

/// Buffer usage hint `STATIC_DRAW` of the graphics API.
pub const STATIC_DRAW: u32 = 0x88E4;

/// Buffer usage hint `DYNAMIC_DRAW` of the graphics API.
pub const DYNAMIC_DRAW: u32 = 0x88E8;

/// Buffer usage hint `STREAM_DRAW` of the graphics API.
pub const STREAM_DRAW: u32 = 0x88E0;

/// How often the contents of a buffer are going to change.
#[derive(Clone, Copy, Debug, PartialEq, Eq, Structural)]
pub enum BufferUpdateFrequency {
    Never,
    Occasionally,
    Often,
}

impl BufferUpdateFrequency {
    /// The usage hint of the graphics API that stands for the frequency.
    pub open spec fn spec_to_gl_enum(self) -> u32 {
        match self {
            BufferUpdateFrequency::Never => STATIC_DRAW,
            BufferUpdateFrequency::Occasionally => DYNAMIC_DRAW,
            BufferUpdateFrequency::Often => STREAM_DRAW,
        }
    }

    /// The usage hint of the graphics API that stands for the frequency.
    pub fn to_gl_enum(&self) -> (hint: u32)
        ensures
            hint == self.spec_to_gl_enum(),
    {
        match self {
            BufferUpdateFrequency::Never => STATIC_DRAW,
            BufferUpdateFrequency::Occasionally => DYNAMIC_DRAW,
            BufferUpdateFrequency::Often => STREAM_DRAW,
        }
    }
}

/// The binding points of buffers.
#[derive(Clone, Copy, Debug, PartialEq, Eq, Structural)]
pub enum BufferTarget {
    Array,
    ElementArray,
    Uniform,
}

/// The binding points of textures.
#[derive(Clone, Copy, Debug, PartialEq, Eq, Structural)]
pub enum TextureTarget {
    Texture2D,
    CubeMapArray,
}

/// The attachment points of a framebuffer.
#[derive(Clone, Copy, Debug, PartialEq, Eq, Structural)]
pub enum Attachment {
    Color0,
    DepthStencil,
}

/// Switches of the fixed-function pipeline.
#[derive(Clone, Copy, Debug, PartialEq, Eq, Structural)]
pub enum Capability {
    DepthTest,
    StencilTest,
    CullFace,
}

/// Comparisons of the depth and the stencil test.
#[derive(Clone, Copy, Debug, PartialEq, Eq, Structural)]
pub enum Comparison {
    Less,
    LessOrEqual,
    NotEqual,
    Always,
}

/// What the stencil test does to the stencil buffer.
#[derive(Clone, Copy, Debug, PartialEq, Eq, Structural)]
pub enum StencilAction {
    Keep,
    Replace,
}

/// How a texture is sampled between and beyond its texels.
#[derive(Clone, Copy, Debug, PartialEq, Eq, Structural)]
pub enum TextureParameter {
    MinFilterNearest,
    MinFilterNearestMipmapNearest,
    MagFilterNearest,
    WrapSClampToEdge,
    WrapTClampToEdge,
    WrapRClampToEdge,
}

/// The stages of a shader program.
#[derive(Clone, Copy, Debug, PartialEq, Eq, Structural)]
pub enum ShaderKind {
    Vertex,
    Fragment,
}

/// The layouts of texel data.
#[derive(Clone, Copy, Debug, PartialEq, Eq, Structural)]
pub enum TextureFormat {
    Unknown,
    RGB,
    RGBA,
    DepthStencil,
}

/// Pixel format `RGB` of the graphics API.
pub const GL_RGB: u32 = 0x1907;

/// Pixel format `RGBA` of the graphics API.
pub const GL_RGBA: u32 = 0x1908;

/// Sized format `RGB8` of the graphics API.
pub const GL_RGB8: u32 = 0x8051;

/// Sized format `RGBA8` of the graphics API.
pub const GL_RGBA8: u32 = 0x8058;

/// Sized format `DEPTH24_STENCIL8` of the graphics API.
pub const GL_DEPTH24_STENCIL8: u32 = 0x88F0;

impl TextureFormat {
    /// Whether the format names a layout of colour texels.
    pub open spec fn is_color(self) -> bool {
        self == TextureFormat::RGB || self == TextureFormat::RGBA
    }

    /// The pixel format of the graphics API for a colour format.
    pub fn to_gl_enum(&self) -> (format: u32)
        requires
            self.is_color(),
        ensures
            format == (if *self == TextureFormat::RGB {
                GL_RGB
            } else {
                GL_RGBA
            }),
    {
        match self {
            TextureFormat::RGB => GL_RGB,
            _ => GL_RGBA,
        }
    }

    /// The sized format of the graphics API for a format that is known.
    pub fn to_gl_enum_sized(&self) -> (format: u32)
        requires
            *self != TextureFormat::Unknown,
        ensures
            format == (match *self {
                TextureFormat::RGB => GL_RGB8,
                TextureFormat::RGBA => GL_RGBA8,
                _ => GL_DEPTH24_STENCIL8,
            }),
    {
        match self {
            TextureFormat::RGB => GL_RGB8,
            TextureFormat::RGBA => GL_RGBA8,
            _ => GL_DEPTH24_STENCIL8,
        }
    }
}

/// A model matrix that is still to be worked out: translation by
/// `position`, after rotation by the angles of `rotation` about the x, y and
/// z axes, after scaling by `scale` times `factor` on every axis. The
/// product is formed in exactly that order, translation outermost and
/// scaling innermost.
#[derive(Clone, Copy, Debug, PartialEq, Eq, Structural)]
pub struct ModelRecipe {
    pub position: Vec3,
    pub rotation: Vec3,
    pub scale: Vec3,
    pub factor: Real,
}

/// The value of a shader uniform.
#[derive(Debug, PartialEq, Eq)]
pub enum UniformValue {
    Int(i32),
    /// An integer that the shader reads as a scalar of the same value.
    IntAsScalar2(i32, i32),
    Scalar(Real),
    Vector3(Vec3),
    Vector4([Real; 4]),
    Matrix4(Mat4),
    /// A matrix that whoever carries the command out composes first.
    Model(ModelRecipe),
    /// An array of scalars, by their bit patterns.
    Scalars(Arc<Vec<u32>>),
}

/// A square of a grid with a square of a texture atlas on it. The square
/// has its upper left corner at (`x`, `y`) and unit size; the part of the
/// atlas has its corner at the texel (`tex_x`, `tex_y`) and is
/// [`TILE_TEXELS`] texels wide and high, in an atlas of [`ATLAS_TEXELS`].
#[derive(Clone, Copy, Debug, PartialEq, Eq, Structural)]
pub struct Tile {
    pub x: u32,
    pub y: u32,
    pub tex_x: u32,
    pub tex_y: u32,
}

/// Side of a tile in the atlas, in texels.
pub const TILE_TEXELS: u32 = 16;

/// Side of the atlas, in texels.
pub const ATLAS_TEXELS: u32 = 128;

/// The two matrices of a camera, still to be worked out: the view from
/// `position` along the direction that the angles of `rotation` give, and
/// the projection with the given parameters.
#[derive(Clone, Copy, Debug, PartialEq, Eq, Structural)]
pub struct CameraRecipe {
    pub position: Vec3,
    pub rotation: Vec3,
    /// Whether the projection is a perspective one; otherwise orthographic.
    pub perspective: bool,
    /// The field of view of a perspective projection, or the half height of
    /// an orthographic one.
    pub extent: Real,
    pub aspect_ratio: Real,
    pub near_plane: Real,
    pub far_plane: Real,
}

/// One operation on the graphics pipeline. Objects are given by the names
/// that the queue handed out; the name 0 stands for "none": the default
/// framebuffer, or no object bound.
#[derive(Debug, PartialEq, Eq)]
#[allow(inconsistent_fields)]
pub enum GlCommand {
    CreateBuffer { buffer: u32 },
    /// Storage for `words` 32-bit words, left uninitialised.
    BufferStorage { buffer: u32, words: usize, usage: BufferUpdateFrequency },
    /// Storage for `data`, filled with it.
    BufferData { buffer: u32, data: Vec<u32>, usage: BufferUpdateFrequency },
    /// `data`, written from the word `offset` on.
    BufferSubData { buffer: u32, offset: usize, data: Vec<u32> },
    /// Storage of `bytes` bytes for a uniform block, left uninitialised.
    UniformStorage { buffer: u32, bytes: u32, usage: BufferUpdateFrequency },
    /// The two matrices of a camera, written to the start of the buffer.
    BufferCameraData { buffer: u32, camera: CameraRecipe },
    /// The corners of `tiles` as two triangles each, written to two
    /// buffers: positions to the one, texture coordinates to the other.
    BufferTiles { positions: u32, texcoords: u32, tiles: Vec<Tile> },
    BindBuffer { target: BufferTarget, buffer: u32 },
    BindBufferBase { target: BufferTarget, index: u32, buffer: u32 },
    DeleteBuffer { buffer: u32 },
    CreateVertexArray { vertex_array: u32 },
    VertexArrayElementBuffer { vertex_array: u32, buffer: u32 },
    EnableVertexArrayAttrib { vertex_array: u32, index: u32 },
    VertexArrayAttribFormat { vertex_array: u32, index: u32, components: u32, offset: u32 },
    VertexArrayAttribBinding { vertex_array: u32, index: u32, binding: u32 },
    VertexArrayVertexBuffer { vertex_array: u32, binding: u32, buffer: u32, components: u32 },
    BindVertexArray { vertex_array: u32 },
    DeleteVertexArray { vertex_array: u32 },
    CreateFramebuffer { framebuffer: u32 },
    FramebufferTexture { framebuffer: u32, attachment: Attachment, texture: u32 },
    FramebufferRenderbuffer { framebuffer: u32, attachment: Attachment, renderbuffer: u32 },
    /// The framebuffer must be complete; it is a fatal error if it is not.
    CheckFramebuffer { framebuffer: u32 },
    BindFramebuffer { framebuffer: u32 },
    DeleteFramebuffer { framebuffer: u32 },
    CreateRenderbuffer { renderbuffer: u32 },
    BindRenderbuffer { renderbuffer: u32 },
    RenderbufferDepthStencil { renderbuffer: u32, width: i32, height: i32 },
    DeleteRenderbuffer { renderbuffer: u32 },
    CreateTexture { texture: u32, target: TextureTarget },
    SetTextureParameter { texture: u32, parameter: TextureParameter },
    TextureStorage2D { texture: u32, levels: u32, format: TextureFormat, width: u32, height: u32 },
    TextureSubImage2D {
        texture: u32,
        xoffset: u32,
        yoffset: u32,
        width: u32,
        height: u32,
        format: TextureFormat,
        pixels: Vec<u8>,
    },
    TextureStorage3D { texture: u32, width: u32, height: u32, layers: u32 },
    TextureSubImage3D { texture: u32, layer: u32, width: u32, height: u32, pixels: Vec<u8> },
    GenerateTextureMipmap { texture: u32 },
    ActiveTexture { unit: u32 },
    BindTexture { target: TextureTarget, texture: u32 },
    DeleteTexture { texture: u32 },
    /// Compiles `source`; it is a fatal error if it does not compile.
    CompileShader { shader: u32, kind: ShaderKind, source: String },
    DeleteShader { shader: u32 },
    /// Links the two shaders; it is a fatal error if they do not link.
    LinkProgram { program: u32, vertex: u32, fragment: u32 },
    UseProgram { program: u32 },
    DeleteProgram { program: u32 },
    /// Sets the uniform `name` of `program`; it is a fatal error if the
    /// program has no such uniform.
    SetUniform { program: u32, name: &'static str, value: UniformValue },
    Viewport { left: i32, bottom: i32, width: i32, height: i32 },
    Enable { capability: Capability },
    Disable { capability: Capability },
    DepthFunc { comparison: Comparison },
    StencilMask { mask: u32 },
    StencilFunc { comparison: Comparison, reference: i32, mask: u32 },
    StencilOp { action: StencilAction },
    ClearColor { red: Real, green: Real, blue: Real, alpha: Real },
    /// Clears the colour, depth and stencil buffers.
    Clear,
    DrawElements { indices: usize },
    DrawArrays { first: i32, vertices: i32 },
}

/// `Arc::clone`: another pointer to the same value.
#[verifier::external_body]
pub(crate) fn share<T>(value: &Arc<T>) -> (shared: Arc<T>)
    ensures
        shared == *value,
{
    Arc::clone(value)
}

/// The commands recorded so far, and the names handed out.
pub struct GlQueue {
    commands: Vec<GlCommand>,
    /// The greatest name handed out so far.
    last_name: u32,
}

impl GlQueue {
    /// The commands recorded and not yet taken, oldest first.
    pub closed spec fn view(&self) -> Seq<GlCommand> {
        self.commands@
    }

    /// The greatest name handed out so far; 0 where none was.
    pub closed spec fn last_name(&self) -> u32 {
        self.last_name
    }

    /// Whether the queue has `count` more names to hand out.
    pub open spec fn has_names(&self, count: nat) -> bool {
        self.last_name() + count <= u32::MAX
    }

    /// A queue without commands that has handed out no name.
    pub fn new() -> (queue: GlQueue)
        ensures
            queue@ == Seq::<GlCommand>::empty(),
            queue.last_name() == 0,
    {
        GlQueue { commands: Vec::new(), last_name: 0 }
    }

    /// Records `command` behind the commands recorded so far.
    pub fn push(&mut self, command: GlCommand)
        ensures
            final(self)@ == old(self)@.push(command),
            final(self).last_name() == old(self).last_name(),
    {
        self.commands.push(command);
    }

    /// Hands out a name that no object has yet: the successor of the name
    /// handed out before.
    pub fn fresh_name(&mut self) -> (name: u32)
        requires
            old(self).has_names(1),
        ensures
            name == old(self).last_name() + 1,
            final(self).last_name() == name,
            final(self)@ == old(self)@,
    {
        self.last_name = self.last_name + 1;
        self.last_name
    }

    /// The greatest name handed out so far; 0 where none was.
    pub fn names_handed_out(&self) -> (name: u32)
        ensures
            name == self.last_name(),
    {
        self.last_name
    }

    /// Number of commands recorded and not yet taken.
    pub fn len(&self) -> (n: usize)
        ensures
            n == self@.len(),
    {
        self.commands.len()
    }

    /// Takes the recorded commands out of the queue, oldest first. The names
    /// handed out stay taken.
    pub fn take(&mut self) -> (commands: Vec<GlCommand>)
        ensures
            commands@ == old(self)@,
            final(self)@ == Seq::<GlCommand>::empty(),
            final(self).last_name() == old(self).last_name(),
    {
        let mut commands: Vec<GlCommand> = Vec::new();
        core::mem::swap(&mut commands, &mut self.commands);
        commands
    }
}

} // verus!
