use engine::gl_wrapper::ebo::EBO;
use engine::gl_wrapper::fbo::{DepthStencilTarget, FBO};
use engine::gl_wrapper::rbo::RBO;
use engine::gl_wrapper::shader_compilation::{ShaderPart, ShaderProgram};
use engine::gl_wrapper::texture_2d::Texture2D;
use engine::gl_wrapper::texture_cube_map::{FaceImage, TextureCubeMap};
use engine::gl_wrapper::ubo::{ComputeStd140LayoutSize, GlslTypes, UBO};
use engine::gl_wrapper::vao::VAO;
use engine::gl_wrapper::vbo::{VertexAttribute, VBO};
use engine::gl_wrapper::{
    Attachment, BufferTarget, BufferUpdateFrequency, GlCommand, GlQueue, ShaderKind,
    TextureFormat, TextureParameter, TextureTarget, UniformValue,
};
use engine::math::{vec3, Mat4, Real};
use engine::shaders::cube_map::CubeMapShader;
use engine::shaders::post_processing::{
    kernel_side, GaussianBlurShader, KernelShader, PostProcessingShader,
};
use engine::shaders::voxel::VoxelShader;
use engine::shapes::{parallelepiped, quad, PredefinedShapes};
use std::sync::Arc;

fn scalar(value: f32) -> Real {
    Real::from_bits(value.to_bits())
}

fn sources() -> (String, String) {
    ("void main() {}".to_string(), "void main() { discard; }".to_string())
}

#[test]
fn usage_hints_are_those_of_the_graphics_api() {
    assert_eq!(BufferUpdateFrequency::Never.to_gl_enum(), gl::STATIC_DRAW);
    assert_eq!(BufferUpdateFrequency::Occasionally.to_gl_enum(), gl::DYNAMIC_DRAW);
    assert_eq!(BufferUpdateFrequency::Often.to_gl_enum(), gl::STREAM_DRAW);
}

#[test]
fn texture_formats_are_those_of_the_graphics_api() {
    assert_eq!(TextureFormat::RGB.to_gl_enum(), gl::RGB);
    assert_eq!(TextureFormat::RGBA.to_gl_enum(), gl::RGBA);
    assert_eq!(TextureFormat::RGB.to_gl_enum_sized(), gl::RGB8);
    assert_eq!(TextureFormat::RGBA.to_gl_enum_sized(), gl::RGBA8);
    assert_eq!(TextureFormat::DepthStencil.to_gl_enum_sized(), gl::DEPTH24_STENCIL8);
}

#[test]
fn the_queue_hands_out_names_in_order() {
    let mut gl = GlQueue::new();
    assert_eq!(gl.len(), 0);
    assert_eq!(gl.fresh_name(), 1);
    assert_eq!(gl.fresh_name(), 2);
    gl.push(GlCommand::Clear);
    gl.push(GlCommand::UseProgram { program: 2 });
    assert_eq!(gl.len(), 2);
    assert_eq!(
        gl.take(),
        vec![GlCommand::Clear, GlCommand::UseProgram { program: 2 }]
    );
    assert_eq!(gl.len(), 0);
    assert_eq!(gl.take(), vec![]);
    // names stay taken
    assert_eq!(gl.fresh_name(), 3);
}

#[test]
fn an_element_buffer_records_what_is_done_to_it() {
    let mut gl = GlQueue::new();
    let mut ebo = EBO::new(&mut gl);
    assert_eq!(ebo.id, 1);
    assert_eq!(ebo.len(), 0);
    ebo.allocate(&mut gl, 12, BufferUpdateFrequency::Occasionally);
    assert_eq!(ebo.len(), 12);
    ebo.with(&mut gl, vec![0, 1, 2], BufferUpdateFrequency::Never);
    assert_eq!(ebo.len(), 3);
    ebo.update(&mut gl, 1, vec![7, 8]);
    assert_eq!(ebo.len(), 3);
    ebo.bind(&mut gl);
    assert_eq!(
        gl.take(),
        vec![
            GlCommand::CreateBuffer { buffer: 1 },
            GlCommand::BufferStorage {
                buffer: 1,
                words: 12,
                usage: BufferUpdateFrequency::Occasionally
            },
            GlCommand::BufferData {
                buffer: 1,
                data: vec![0, 1, 2],
                usage: BufferUpdateFrequency::Never
            },
            GlCommand::BufferSubData {
                buffer: 1,
                offset: 1,
                data: vec![7, 8]
            },
            GlCommand::BindBuffer {
                target: BufferTarget::ElementArray,
                buffer: 1
            },
        ]
    );
}

#[test]
fn a_vertex_buffer_records_what_is_done_to_it() {
    let mut gl = GlQueue::new();
    let attributes = vec![VertexAttribute {
        index: 0,
        components: 3,
    }];
    let mut vbo = VBO::new(&mut gl, attributes.clone());
    assert_eq!(vbo.attributes, attributes);
    assert_eq!(vbo.len(), 0);
    vbo.allocate(&mut gl, 9, BufferUpdateFrequency::Often);
    assert_eq!(vbo.len(), 9);
    let data = vec![1.0f32.to_bits(), 2.0f32.to_bits()];
    vbo.with(&mut gl, data.clone(), BufferUpdateFrequency::Never);
    assert_eq!(vbo.len(), 2);
    vbo.update(&mut gl, 0, data.clone());
    vbo.bind(&mut gl);
    assert_eq!(
        gl.take(),
        vec![
            GlCommand::CreateBuffer { buffer: 1 },
            GlCommand::BufferStorage {
                buffer: 1,
                words: 9,
                usage: BufferUpdateFrequency::Often
            },
            GlCommand::BufferData {
                buffer: 1,
                data: data.clone(),
                usage: BufferUpdateFrequency::Never
            },
            GlCommand::BufferSubData {
                buffer: 1,
                offset: 0,
                data
            },
            GlCommand::BindBuffer {
                target: BufferTarget::Array,
                buffer: 1
            },
        ]
    );
}

#[test]
fn a_vertex_array_wires_attributes_one_after_the_other() {
    let mut gl = GlQueue::new();
    let interleaved = VBO::new(
        &mut gl,
        vec![
            VertexAttribute {
                index: 0,
                components: 3,
            },
            VertexAttribute {
                index: 1,
                components: 2,
            },
        ],
    );
    let normals = VBO::new(
        &mut gl,
        vec![VertexAttribute {
            index: 2,
            components: 3,
        }],
    );
    let ebo = EBO::new(&mut gl);
    let _ = gl.take();
    let vao = VAO::new(&mut gl, &vec![interleaved, normals], Some(&ebo));
    assert_eq!(vao.id, 4);
    vao.bind(&mut gl);
    vao.unbind(&mut gl);
    let attribute = |index: u32, components: u32, offset: u32, binding: u32, buffer: u32| {
        vec![
            GlCommand::EnableVertexArrayAttrib {
                vertex_array: 4,
                index,
            },
            GlCommand::VertexArrayAttribFormat {
                vertex_array: 4,
                index,
                components,
                offset,
            },
            GlCommand::VertexArrayAttribBinding {
                vertex_array: 4,
                index,
                binding,
            },
            GlCommand::VertexArrayVertexBuffer {
                vertex_array: 4,
                binding,
                buffer,
                components,
            },
        ]
    };
    let mut expected = vec![GlCommand::CreateVertexArray { vertex_array: 4 }];
    expected.extend(attribute(0, 3, 0, 0, 1));
    expected.extend(attribute(1, 2, 12, 0, 1));
    expected.extend(attribute(2, 3, 0, 1, 2));
    expected.push(GlCommand::VertexArrayElementBuffer {
        vertex_array: 4,
        buffer: 3,
    });
    expected.push(GlCommand::BindVertexArray { vertex_array: 4 });
    expected.push(GlCommand::BindVertexArray { vertex_array: 0 });
    assert_eq!(gl.take(), expected);

    let empty = VAO::new(&mut gl, &vec![], None);
    assert_eq!(
        gl.take(),
        vec![GlCommand::CreateVertexArray {
            vertex_array: empty.id
        }]
    );
}

#[test]
fn a_texture_records_what_is_done_to_it() {
    let mut gl = GlQueue::new();
    let mut texture = Texture2D::new(&mut gl);
    assert_eq!(texture.format, TextureFormat::Unknown);
    texture.allocate(&mut gl, TextureFormat::RGB, 4, 2, 3);
    assert_eq!(
        (texture.format, texture.width, texture.height, texture.mipmap_levels),
        (TextureFormat::RGB, 4, 2, 3)
    );
    texture.update(&mut gl, 1, 0, 2, 2, vec![9; 12]);
    texture.activate(&mut gl, 5);
    texture.unbind(&mut gl);
    assert_eq!(
        gl.take(),
        vec![
            GlCommand::CreateTexture {
                texture: 1,
                target: TextureTarget::Texture2D
            },
            GlCommand::SetTextureParameter {
                texture: 1,
                parameter: TextureParameter::MinFilterNearestMipmapNearest
            },
            GlCommand::SetTextureParameter {
                texture: 1,
                parameter: TextureParameter::MagFilterNearest
            },
            GlCommand::TextureStorage2D {
                texture: 1,
                levels: 3,
                format: TextureFormat::RGB,
                width: 4,
                height: 2
            },
            GlCommand::TextureSubImage2D {
                texture: 1,
                xoffset: 1,
                yoffset: 0,
                width: 2,
                height: 2,
                format: TextureFormat::RGB,
                pixels: vec![9; 12]
            },
            GlCommand::GenerateTextureMipmap { texture: 1 },
            GlCommand::ActiveTexture { unit: 5 },
            GlCommand::BindTexture {
                target: TextureTarget::Texture2D,
                texture: 1
            },
            GlCommand::BindTexture {
                target: TextureTarget::Texture2D,
                texture: 0
            },
        ]
    );
}

#[test]
fn a_framebuffer_attaches_its_targets_and_is_checked() {
    let mut gl = GlQueue::new();
    let color = Texture2D::new(&mut gl);
    let rbo = RBO::new(&mut gl);
    rbo.bind(&mut gl);
    rbo.create_depth_stencil(&mut gl, 800, 600);
    let _ = gl.take();
    let fbo = FBO::new(&mut gl, color, DepthStencilTarget::RBO(rbo));
    assert_eq!((fbo.id, fbo.color_texture.id), (3, 1));
    fbo.bind(&mut gl);
    FBO::bind_default(&mut gl);
    assert_eq!(
        gl.take(),
        vec![
            GlCommand::CreateFramebuffer { framebuffer: 3 },
            GlCommand::FramebufferTexture {
                framebuffer: 3,
                attachment: Attachment::Color0,
                texture: 1
            },
            GlCommand::FramebufferRenderbuffer {
                framebuffer: 3,
                attachment: Attachment::DepthStencil,
                renderbuffer: 2
            },
            GlCommand::CheckFramebuffer { framebuffer: 3 },
            GlCommand::BindFramebuffer { framebuffer: 3 },
            GlCommand::BindFramebuffer { framebuffer: 0 },
        ]
    );
    let color = Texture2D::new(&mut gl);
    let depth = Texture2D::new(&mut gl);
    let _ = gl.take();
    let fbo = FBO::new(&mut gl, color, DepthStencilTarget::Texture2D(depth));
    assert_eq!(
        gl.take()[2],
        GlCommand::FramebufferTexture {
            framebuffer: fbo.id,
            attachment: Attachment::DepthStencil,
            texture: 5
        }
    );
}

#[test]
fn a_renderbuffer_records_what_is_done_to_it() {
    let mut gl = GlQueue::new();
    let rbo = RBO::new(&mut gl);
    rbo.bind(&mut gl);
    rbo.create_depth_stencil(&mut gl, 1920, 1080);
    assert_eq!(
        gl.take(),
        vec![
            GlCommand::CreateRenderbuffer { renderbuffer: 1 },
            GlCommand::BindRenderbuffer { renderbuffer: 1 },
            GlCommand::RenderbufferDepthStencil {
                renderbuffer: 1,
                width: 1920,
                height: 1080
            },
        ]
    );
}

#[test]
fn a_cube_map_uploads_its_six_faces_in_order() {
    let mut gl = GlQueue::new();
    let faces: Vec<FaceImage> = (0..6u8)
        .map(|face| FaceImage {
            width: 2,
            height: 1,
            pixels: vec![face; 6],
        })
        .collect();
    let cube = TextureCubeMap::new(&mut gl, faces);
    TextureCubeMap::activate(&mut gl, 0);
    cube.bind(&mut gl);
    let commands = gl.take();
    assert_eq!(commands.len(), 2 + 6 + 5 + 2);
    assert_eq!(
        commands[0],
        GlCommand::CreateTexture {
            texture: 1,
            target: TextureTarget::CubeMapArray
        }
    );
    assert_eq!(
        commands[1],
        GlCommand::TextureStorage3D {
            texture: 1,
            width: 2,
            height: 1,
            layers: 6
        }
    );
    for layer in 0..6u32 {
        assert_eq!(
            commands[2 + layer as usize],
            GlCommand::TextureSubImage3D {
                texture: 1,
                layer,
                width: 2,
                height: 1,
                pixels: vec![layer as u8; 6]
            }
        );
    }
    assert_eq!(
        commands[8..13],
        [
            TextureParameter::MinFilterNearest,
            TextureParameter::MagFilterNearest,
            TextureParameter::WrapSClampToEdge,
            TextureParameter::WrapTClampToEdge,
            TextureParameter::WrapRClampToEdge
        ]
        .map(|parameter| GlCommand::SetTextureParameter {
            texture: 1,
            parameter
        })
    );
    assert_eq!(commands[13], GlCommand::ActiveTexture { unit: 0 });
    assert_eq!(
        commands[14],
        GlCommand::BindTexture {
            target: TextureTarget::CubeMapArray,
            texture: 1
        }
    );
}

#[test]
fn std140_sizes() {
    assert_eq!(GlslTypes::Float.compute_std140_layout_size(), 4);
    assert_eq!(GlslTypes::Int.compute_std140_layout_size(), 4);
    assert_eq!(GlslTypes::Vec2.compute_std140_layout_size(), 8);
    assert_eq!(GlslTypes::Vec3.compute_std140_layout_size(), 16);
    assert_eq!(GlslTypes::Vec4.compute_std140_layout_size(), 16);
    assert_eq!(GlslTypes::Mat4.compute_std140_layout_size(), 64);
    assert_eq!(Vec::<GlslTypes>::new().compute_std140_layout_size(), 0);
    assert_eq!(
        vec![GlslTypes::Mat4, GlslTypes::Mat4].compute_std140_layout_size(),
        128
    );
    assert_eq!(
        vec![GlslTypes::Float, GlslTypes::Vec3, GlslTypes::Vec2].compute_std140_layout_size(),
        28
    );
}

#[test]
fn a_uniform_buffer_takes_values_of_its_layout() {
    let mut gl = GlQueue::new();
    let ubo = UBO::new(
        &mut gl,
        vec![GlslTypes::Vec4, GlslTypes::Float],
        BufferUpdateFrequency::Often,
    );
    ubo.bind(&mut gl, 2);
    assert_eq!(
        gl.take(),
        vec![
            GlCommand::CreateBuffer { buffer: 1 },
            GlCommand::UniformStorage {
                buffer: 1,
                bytes: 20,
                usage: BufferUpdateFrequency::Often
            },
            GlCommand::BindBufferBase {
                target: BufferTarget::Uniform,
                index: 2,
                buffer: 1
            },
        ]
    );
    assert!(ubo.is_compatible(&vec![GlslTypes::Vec4, GlslTypes::Float]));
    assert!(!ubo.is_compatible(&vec![GlslTypes::Vec4]));
    assert!(!ubo.is_compatible(&vec![GlslTypes::Vec4, GlslTypes::Int]));
    assert!(!ubo.is_compatible(&vec![GlslTypes::Float, GlslTypes::Vec4]));
    assert!(!ubo.is_compatible(&vec![GlslTypes::Vec4, GlslTypes::Float, GlslTypes::Float]));
}

#[test]
fn a_program_is_linked_from_two_shaders() {
    let mut gl = GlQueue::new();
    let (vertex_source, fragment_source) = sources();
    let vertex = ShaderPart::from_vert_source(&mut gl, vertex_source.clone());
    let fragment = ShaderPart::from_frag_source(&mut gl, fragment_source.clone());
    let other = ShaderPart::from_source(&mut gl, String::new(), ShaderKind::Vertex);
    assert_eq!((vertex.id, fragment.id, other.id), (1, 2, 3));
    let program = ShaderProgram::from_shaders(&mut gl, vertex, fragment);
    program.use_program(&mut gl);
    assert_eq!(
        gl.take(),
        vec![
            GlCommand::CompileShader {
                shader: 1,
                kind: ShaderKind::Vertex,
                source: vertex_source
            },
            GlCommand::CompileShader {
                shader: 2,
                kind: ShaderKind::Fragment,
                source: fragment_source
            },
            GlCommand::CompileShader {
                shader: 3,
                kind: ShaderKind::Vertex,
                source: String::new()
            },
            GlCommand::LinkProgram {
                program: 4,
                vertex: 1,
                fragment: 2
            },
            GlCommand::DeleteShader { shader: 2 },
            GlCommand::DeleteShader { shader: 1 },
            GlCommand::UseProgram { program: 4 },
        ]
    );
}

#[test]
fn uniforms_are_set_by_name() {
    let mut gl = GlQueue::new();
    let program = ShaderProgram { id: 9 };
    let color = vec3(scalar(1.0), scalar(0.5), scalar(0.25));
    let weights = Arc::new(vec![1.0f32.to_bits(); 3]);
    program
        .set_uniform3f(&mut gl, "color", color)
        .set_uniform1f(&mut gl, "shininess", scalar(32.0))
        .set_uniform1i(&mut gl, "unit", -1)
        .set_uniform_matrix4fv(&mut gl, "model", Mat4::identity())
        .set_uniform1fv(&mut gl, "row", weights.clone())
        .set_uniform4f(&mut gl, "tint", [scalar(0.0), scalar(0.25), scalar(0.5), scalar(1.0)]);
    let set = |name: &'static str, value: UniformValue| GlCommand::SetUniform {
        program: 9,
        name,
        value,
    };
    assert_eq!(
        gl.take(),
        vec![
            set("color", UniformValue::Vector3(color)),
            set("shininess", UniformValue::Scalar(scalar(32.0))),
            set("unit", UniformValue::Int(-1)),
            set("model", UniformValue::Matrix4(Mat4::identity())),
            set("row", UniformValue::Scalars(weights)),
            set(
                "tint",
                UniformValue::Vector4([scalar(0.0), scalar(0.25), scalar(0.5), scalar(1.0)])
            ),
        ]
    );
}

#[test]
fn objects_are_given_up_by_name() {
    let mut gl = GlQueue::new();
    let color = Texture2D::new(&mut gl);
    let rbo = RBO::new(&mut gl);
    let fbo = FBO::new(&mut gl, color, DepthStencilTarget::RBO(rbo));
    let ubo = UBO::new(&mut gl, vec![GlslTypes::Float], BufferUpdateFrequency::Never);
    let vao = VAO::new(&mut gl, &vec![], None);
    let part = ShaderPart::from_vert_source(&mut gl, String::new());
    let program = ShaderProgram { id: 40 };
    let cube = TextureCubeMap { id: 41 };
    let _ = gl.take();
    let (color, depth_stencil) = fbo.delete(&mut gl);
    color.delete(&mut gl);
    match depth_stencil {
        DepthStencilTarget::RBO(rbo) => rbo.delete(&mut gl),
        DepthStencilTarget::Texture2D(texture) => texture.delete(&mut gl),
    }
    ubo.delete(&mut gl);
    vao.delete(&mut gl);
    part.delete(&mut gl);
    program.delete(&mut gl);
    cube.delete(&mut gl);
    assert_eq!(
        gl.take(),
        vec![
            GlCommand::DeleteFramebuffer { framebuffer: 3 },
            GlCommand::DeleteTexture { texture: 1 },
            GlCommand::DeleteRenderbuffer { renderbuffer: 2 },
            GlCommand::DeleteBuffer { buffer: 4 },
            GlCommand::DeleteVertexArray { vertex_array: 5 },
            GlCommand::DeleteShader { shader: 6 },
            GlCommand::DeleteProgram { program: 40 },
            GlCommand::DeleteTexture { texture: 41 },
        ]
    );
}

fn compiled(first: u32, program: u32) -> Vec<GlCommand> {
    let (vertex_source, fragment_source) = sources();
    vec![
        GlCommand::CompileShader {
            shader: first,
            kind: ShaderKind::Vertex,
            source: vertex_source,
        },
        GlCommand::CompileShader {
            shader: first + 1,
            kind: ShaderKind::Fragment,
            source: fragment_source,
        },
        GlCommand::LinkProgram {
            program,
            vertex: first,
            fragment: first + 1,
        },
        GlCommand::DeleteShader { shader: first + 1 },
        GlCommand::DeleteShader { shader: first },
    ]
}

fn screen_texture(program: u32, texture: u32) -> Vec<GlCommand> {
    vec![
        GlCommand::UseProgram { program },
        GlCommand::ActiveTexture { unit: 0 },
        GlCommand::BindTexture {
            target: TextureTarget::Texture2D,
            texture,
        },
        GlCommand::SetUniform {
            program,
            name: "screen_texture",
            value: UniformValue::Int(0),
        },
    ]
}

#[test]
fn the_skybox_shader_reads_texture_unit_zero() {
    let mut gl = GlQueue::new();
    let (vertex, fragment) = sources();
    let shader = CubeMapShader::new(&mut gl, vertex, fragment);
    assert_eq!(gl.take(), compiled(1, 3));
    shader.bind(&mut gl);
    assert_eq!(
        gl.take(),
        vec![
            GlCommand::UseProgram { program: 3 },
            GlCommand::SetUniform {
                program: 3,
                name: "cube_map",
                value: UniformValue::Int(0)
            },
        ]
    );
}

#[test]
fn the_block_shader_takes_an_offset_in_blocks() {
    let mut gl = GlQueue::new();
    let (vertex, fragment) = sources();
    let shader = VoxelShader::new(&mut gl, vertex, fragment);
    let _ = gl.take();
    shader.bind(&mut gl);
    shader.set_offset(&mut gl, (-16, 32));
    assert_eq!(
        gl.take(),
        vec![
            GlCommand::UseProgram { program: 3 },
            GlCommand::SetUniform {
                program: 3,
                name: "offset",
                value: UniformValue::IntAsScalar2(-16, 32)
            },
        ]
    );
}

#[test]
fn post_processing_shaders_read_the_picture_from_unit_zero() {
    let mut gl = GlQueue::new();
    let picture = Texture2D::new(&mut gl);
    let (vertex, fragment) = sources();
    let kernel = KernelShader::new(&mut gl, vertex.clone(), fragment.clone());
    let blur = GaussianBlurShader::new(&mut gl, vertex.clone(), fragment.clone());
    let plain = PostProcessingShader::new(&mut gl, vertex, fragment);
    let _ = gl.take();
    kernel.bind_screen_texture(&mut gl, &picture);
    assert_eq!(gl.take(), screen_texture(kernel.program.id, picture.id));
    blur.bind_screen_texture(&mut gl, &picture);
    assert_eq!(gl.take(), screen_texture(blur.program.id, picture.id));
    plain.bind_screen_texture(&mut gl, &picture);
    assert_eq!(gl.take(), screen_texture(plain.program.id, picture.id));

    let weights = Arc::new(vec![0.25f32.to_bits(); 9]);
    kernel.bind_kernel(&mut gl, weights.clone(), 3);
    assert_eq!(
        gl.take(),
        vec![
            GlCommand::SetUniform {
                program: kernel.program.id,
                name: "kernel",
                value: UniformValue::Scalars(weights.clone())
            },
            GlCommand::SetUniform {
                program: kernel.program.id,
                name: "kernel_size",
                value: UniformValue::Int(3)
            },
        ]
    );
    blur.bind_kernel(&mut gl, weights.clone(), true);
    blur.bind_kernel(&mut gl, weights.clone(), false);
    let row = |vertical: i32| {
        vec![
            GlCommand::SetUniform {
                program: blur.program.id,
                name: "row",
                value: UniformValue::Scalars(weights.clone()),
            },
            GlCommand::SetUniform {
                program: blur.program.id,
                name: "row_size",
                value: UniformValue::Int(9),
            },
            GlCommand::SetUniform {
                program: blur.program.id,
                name: "vertical",
                value: UniformValue::Int(vertical),
            },
        ]
    };
    let mut expected = row(1);
    expected.extend(row(0));
    assert_eq!(gl.take(), expected);
}

#[test]
fn kernels_are_squares_with_an_odd_side() {
    assert_eq!(kernel_side(0), None);
    assert_eq!(kernel_side(1), Some(1));
    assert_eq!(kernel_side(2), None);
    assert_eq!(kernel_side(4), None);
    assert_eq!(kernel_side(8), None);
    assert_eq!(kernel_side(9), Some(3));
    assert_eq!(kernel_side(10), None);
    assert_eq!(kernel_side(16), None);
    assert_eq!(kernel_side(25), Some(5));
    assert_eq!(kernel_side(225), Some(15));
    assert_eq!(kernel_side(65_025), Some(255));
    assert_eq!(kernel_side(65_536), None);
}

fn values(data: &[u32]) -> Vec<f32> {
    data.iter().map(|bits| f32::from_bits(*bits)).collect()
}

#[test]
fn the_unit_cube_has_its_corners_at_plus_and_minus_one() {
    let mut gl = GlQueue::new();
    let cube = parallelepiped(&mut gl);
    assert_eq!(cube.id, 2);
    let commands = gl.take();
    assert_eq!(commands[0], GlCommand::CreateBuffer { buffer: 1 });
    let data = match &commands[1] {
        GlCommand::BufferData {
            buffer: 1,
            data,
            usage: BufferUpdateFrequency::Never,
        } => values(data),
        other => panic!("unexpected {:?}", other),
    };
    assert_eq!(data.len(), 108);
    assert!(data.iter().all(|v| *v == 1.0 || *v == -1.0));
    assert_eq!(data[0..9], [-1.0, 1.0, -1.0, -1.0, -1.0, -1.0, 1.0, -1.0, -1.0]);
    assert_eq!(data[99..108], [1.0, -1.0, -1.0, -1.0, -1.0, 1.0, 1.0, -1.0, 1.0]);
    // every face lies in a plane: one coordinate is the same on its six corners
    for face in 0..6 {
        let corners: Vec<&[f32]> = data[18 * face..18 * (face + 1)].chunks(3).collect();
        assert!((0..3).any(|axis| corners.iter().all(|c| c[axis] == corners[0][axis])));
    }
    assert_eq!(commands[2], GlCommand::CreateVertexArray { vertex_array: 2 });
    assert_eq!(
        commands[4],
        GlCommand::VertexArrayAttribFormat {
            vertex_array: 2,
            index: 0,
            components: 3,
            offset: 0
        }
    );
    assert_eq!(commands.len(), 7);
}

#[test]
fn the_quad_covers_the_screen() {
    let mut gl = GlQueue::new();
    let shape = quad(&mut gl);
    assert_eq!(shape.id, 3);
    let commands = gl.take();
    let data_of = |command: &GlCommand| match command {
        GlCommand::BufferData { data, .. } => values(data),
        other => panic!("unexpected {:?}", other),
    };
    assert_eq!(
        data_of(&commands[1]),
        vec![-1.0, 1.0, -1.0, -1.0, 1.0, -1.0, -1.0, 1.0, 1.0, -1.0, 1.0, 1.0]
    );
    assert_eq!(
        data_of(&commands[3]),
        vec![0.0, 1.0, 0.0, 0.0, 1.0, 0.0, 0.0, 1.0, 1.0, 0.0, 1.0, 1.0]
    );
    assert_eq!(commands.len(), 4 + 1 + 4 + 4);
    let shapes = PredefinedShapes::new(&mut gl);
    assert_eq!((shapes.unit_cube.id, shapes.unit_quad.id), (5, 8));
    assert_eq!(gl.take().len(), 7 + 13);
}
