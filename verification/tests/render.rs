use engine::containers::global_instances::{
    texture_from_image, ImageColor, MaterialData, MaterialTextures, ModelData, ModelLoader,
};
use engine::containers::{Container, ShaderSources};
use engine::ecs::components::{
    Background, Camera, Material, Mesh, MeshRenderer, Outliner, PointLight, Projection, Transform,
};
use engine::ecs::resources::ActiveCamera;
use engine::ecs::storage::ComponentStore;
use engine::ecs::systems::render::{CameraUBO, MeshRendererSystem};
use engine::gl_wrapper::fbo::FBO;
use engine::gl_wrapper::texture_cube_map::{FaceImage, TextureCubeMap};
use engine::gl_wrapper::ubo::{GlslTypes, Std140};
use engine::gl_wrapper::vao::VAO;
use engine::gl_wrapper::{
    BufferTarget, BufferUpdateFrequency, CameraRecipe, Capability, Comparison, GlCommand, GlQueue,
    ModelRecipe, StencilAction, TextureFormat, TextureTarget, UniformValue,
};
use engine::math::{vec3, Mat4, Real};
use engine::post_processing_effects::{Effect, GaussianBlur, Kernel, PPEffect};
use engine::shaders::diffuse::{find_first_light, DiffuseData, PixelData};
use engine::shaders::outline::OutlineData;
use engine::shaders::ShaderData;
use std::sync::Arc;

fn scalar(value: f32) -> Real {
    Real::from_bits(value.to_bits())
}

fn sources() -> ShaderSources {
    ShaderSources {
        vertex: String::new(),
        fragment: String::new(),
    }
}

fn container(gl: &mut GlQueue) -> Container {
    let container = Container::new(gl, sources(), sources(), sources(), sources(), sources());
    let _ = gl.take();
    container
}

struct Scene {
    gl: GlQueue,
    container: Container,
    system: MeshRendererSystem,
    transforms: ComponentStore<Transform>,
    meshes: ComponentStore<MeshRenderer>,
    cameras: ComponentStore<Camera>,
    lights: ComponentStore<PointLight>,
    outliners: ComponentStore<Outliner>,
    active: ActiveCamera,
}

impl Scene {
    fn run(&mut self) -> Vec<GlCommand> {
        self.system.run(
            &mut self.gl,
            &self.container,
            &self.transforms,
            &self.meshes,
            &self.cameras,
            &self.active,
            &self.lights,
            &self.outliners,
        );
        self.gl.take()
    }
}

fn mesh(vao: u32, indices: usize, data: DiffuseData) -> MeshRenderer {
    MeshRenderer {
        mesh: Arc::new(Mesh {
            vao: VAO { id: vao },
            positions: vec![],
            indices: vec![0; indices],
            normals: vec![],
            texcoords: vec![],
        }),
        material: Arc::new(Material { shader_data: data }),
    }
}

const CAMERA: u32 = 0;

fn scene(background: Background, effects: Vec<Effect>, gl: GlQueue, container: Container) -> Scene {
    let mut gl = gl;
    let system = MeshRendererSystem::new(&mut gl);
    let camera = Camera::new(
        &mut gl,
        Projection::Perspective(scalar(1.2)),
        scalar(1.0),
        scalar(0.1),
        scalar(1000.0),
        background,
        effects,
    );
    let _ = gl.take();
    let mut scene = Scene {
        gl,
        container,
        system,
        transforms: ComponentStore::new(64),
        meshes: ComponentStore::new(64),
        cameras: ComponentStore::new(64),
        lights: ComponentStore::new(64),
        outliners: ComponentStore::new(64),
        active: ActiveCamera::default(),
    };
    let camera_transform = Transform {
        position: vec3(scalar(0.0), scalar(5.0), scalar(3.0)),
        ..Transform::default()
    };
    assert!(scene.transforms.insert(CAMERA, camera_transform).is_ok());
    assert!(scene.cameras.insert(CAMERA, camera).is_ok());
    scene
}

fn plain_scene(effects: impl FnOnce(&mut GlQueue) -> Vec<Effect>) -> Scene {
    let mut gl = GlQueue::new();
    let container = container(&mut gl);
    let effects = effects(&mut gl);
    scene(
        Background::Color(scalar(0.5), scalar(0.8), scalar(1.0)),
        effects,
        gl,
        container,
    )
}

fn setup(target: u32, clear_color: Option<(f32, f32, f32)>) -> Vec<GlCommand> {
    let mut commands = vec![
        GlCommand::BindFramebuffer { framebuffer: target },
        GlCommand::Viewport {
            left: 0,
            bottom: 0,
            width: 800,
            height: 800,
        },
        GlCommand::Enable {
            capability: Capability::DepthTest,
        },
        GlCommand::DepthFunc {
            comparison: Comparison::Less,
        },
        GlCommand::Enable {
            capability: Capability::StencilTest,
        },
        GlCommand::StencilMask { mask: 0xFF },
    ];
    if let Some((r, g, b)) = clear_color {
        commands.push(GlCommand::ClearColor {
            red: scalar(r),
            green: scalar(g),
            blue: scalar(b),
            alpha: scalar(1.0),
        });
    }
    commands.push(GlCommand::Clear);
    commands.push(GlCommand::StencilFunc {
        comparison: Comparison::Always,
        reference: 1,
        mask: 0xFF,
    });
    commands
}

fn outline_setup() -> Vec<GlCommand> {
    vec![
        GlCommand::StencilFunc {
            comparison: Comparison::NotEqual,
            reference: 1,
            mask: 0xFF,
        },
        GlCommand::StencilMask { mask: 0x00 },
        GlCommand::Disable {
            capability: Capability::DepthTest,
        },
    ]
}

fn set(program: u32, name: &'static str, value: UniformValue) -> GlCommand {
    GlCommand::SetUniform {
        program,
        name,
        value,
    }
}

fn default_material(program: u32, model: Mat4) -> Vec<GlCommand> {
    vec![
        GlCommand::UseProgram { program },
        set(program, "model", UniformValue::Matrix4(model)),
        set(
            program,
            "material.diffuse_color",
            UniformValue::Vector3(vec3(scalar(0.7), scalar(0.7), scalar(0.7))),
        ),
        set(program, "material.using_diffuse_texture", UniformValue::Int(0)),
        set(
            program,
            "material.specular_color",
            UniformValue::Vector3(vec3(scalar(0.5), scalar(0.5), scalar(0.5))),
        ),
        set(program, "material.using_specular_texture", UniformValue::Int(0)),
        set(program, "material.shininess", UniformValue::Scalar(scalar(32.0))),
    ]
}

fn camera_data(scene: &Scene) -> GlCommand {
    let transform = scene.transforms.get(CAMERA).unwrap();
    GlCommand::BufferCameraData {
        buffer: scene.system.camera_matrices_ubo.id,
        camera: CameraRecipe {
            position: transform.position,
            rotation: transform.rotation,
            perspective: true,
            extent: scalar(1.2),
            aspect_ratio: scalar(1.0),
            near_plane: scalar(0.1),
            far_plane: scalar(1000.0),
        },
    }
}

#[test]
fn nothing_is_drawn_without_an_active_camera() {
    let mut scene = plain_scene(|_| vec![]);
    assert!(scene.meshes.insert(1, mesh(40, 3, DiffuseData::default())).is_ok());
    assert!(scene.transforms.insert(1, Transform::default()).is_ok());
    assert_eq!(scene.run(), vec![]);
}

#[test]
fn the_render_system_has_a_uniform_buffer_for_the_camera() {
    let mut gl = GlQueue::new();
    let system = MeshRendererSystem::new(&mut gl);
    assert_eq!(
        system.camera_matrices_ubo.layout,
        vec![GlslTypes::Mat4, GlslTypes::Mat4]
    );
    assert_eq!(
        gl.take(),
        vec![
            GlCommand::CreateBuffer { buffer: 1 },
            GlCommand::UniformStorage {
                buffer: 1,
                bytes: 128,
                usage: BufferUpdateFrequency::Often
            },
            GlCommand::BindBufferBase {
                target: BufferTarget::Uniform,
                index: 0,
                buffer: 1
            },
        ]
    );
    let recipe = CameraRecipe {
        position: vec3(scalar(1.0), scalar(2.0), scalar(3.0)),
        rotation: vec3(scalar(0.0), scalar(0.0), scalar(0.0)),
        perspective: false,
        extent: scalar(10.0),
        aspect_ratio: scalar(1.5),
        near_plane: scalar(0.1),
        far_plane: scalar(100.0),
    };
    let block = CameraUBO { camera: recipe };
    assert_eq!(block.get_std140_layout(), vec![GlslTypes::Mat4, GlslTypes::Mat4]);
    assert!(system.camera_matrices_ubo.is_compatible(&block.get_std140_layout()));
    system.camera_matrices_ubo.update(&mut gl, &block);
    assert_eq!(
        gl.take(),
        vec![GlCommand::BufferCameraData {
            buffer: 1,
            camera: recipe
        }]
    );
}

#[test]
fn a_frame_without_effects_is_drawn_onto_the_visible_surface() {
    let mut scene = plain_scene(|_| vec![]);
    scene.active.entity = Some(CAMERA);
    let moved = Transform {
        position: vec3(scalar(1.0), scalar(0.0), scalar(0.0)),
        scale: vec3(scalar(2.0), scalar(2.0), scalar(2.0)),
        model_matrix: Mat4 { words: [7; 16] },
        ..Transform::default()
    };
    // entity 3 is outlined, entity 2 is not, entity 5 has no mesh, entity 6 no transform
    assert!(scene.transforms.insert(3, moved).is_ok());
    assert!(scene.transforms.insert(2, Transform::default()).is_ok());
    assert!(scene.transforms.insert(5, Transform::default()).is_ok());
    assert!(scene.meshes.insert(3, mesh(40, 36, DiffuseData::default())).is_ok());
    assert!(scene.meshes.insert(2, mesh(41, 6, DiffuseData::default())).is_ok());
    assert!(scene.meshes.insert(6, mesh(42, 6, DiffuseData::default())).is_ok());
    let yellow = vec3(scalar(1.0), scalar(1.0), scalar(0.0));
    let outliner = Outliner {
        scale: scalar(1.05),
        color: yellow,
    };
    assert!(scene.outliners.insert(3, outliner).is_ok());
    assert!(scene.outliners.insert(5, outliner).is_ok());

    let commands = scene.run();
    let diffuse = scene.container.diffuse_shader.program.id;
    let outline = scene.container.outline_shader.program.id;
    let mut expected = vec![camera_data(&scene)];
    expected.extend(setup(0, Some((0.5, 0.8, 1.0))));
    // opaque pass, in increasing order of the entities
    expected.push(GlCommand::BindVertexArray { vertex_array: 41 });
    expected.extend(default_material(diffuse, Mat4::identity()));
    expected.push(GlCommand::StencilMask { mask: 0x00 });
    expected.push(GlCommand::StencilOp {
        action: StencilAction::Keep,
    });
    expected.push(GlCommand::DrawElements { indices: 6 });
    expected.push(GlCommand::BindVertexArray { vertex_array: 40 });
    expected.extend(default_material(diffuse, Mat4 { words: [7; 16] }));
    expected.push(GlCommand::StencilMask { mask: 0xFF });
    expected.push(GlCommand::StencilOp {
        action: StencilAction::Replace,
    });
    expected.push(GlCommand::DrawElements { indices: 36 });
    // no skybox; outline pass
    expected.extend(outline_setup());
    expected.push(GlCommand::BindVertexArray { vertex_array: 40 });
    expected.push(GlCommand::UseProgram { program: outline });
    expected.push(set(
        outline,
        "model",
        UniformValue::Model(ModelRecipe {
            position: moved.position,
            rotation: moved.rotation,
            scale: moved.scale,
            factor: scalar(1.05),
        }),
    ));
    expected.push(set(outline, "color", UniformValue::Vector3(yellow)));
    expected.push(GlCommand::DrawElements { indices: 36 });
    assert_eq!(commands, expected);

    // no offscreen framebuffer was made, and none is ever made the target
    assert!(scene.cameras.get(CAMERA).unwrap().fb.is_none());
    assert!(commands.iter().all(|command| match command {
        GlCommand::BindFramebuffer { framebuffer } => *framebuffer == 0,
        _ => true,
    }));
}

#[test]
fn the_skybox_is_drawn_behind_the_meshes() {
    let mut gl = GlQueue::new();
    let container = container(&mut gl);
    let faces = (0..6)
        .map(|_| FaceImage {
            width: 1,
            height: 1,
            pixels: vec![0, 0, 0],
        })
        .collect();
    let skybox = Arc::new(TextureCubeMap::new(&mut gl, faces));
    let mut scene = scene(Background::Skybox(skybox.clone()), vec![], gl, container);
    scene.active.entity = Some(CAMERA);
    let commands = scene.run();
    let program = scene.container.cube_map_shader.program.id;
    let mut expected = vec![camera_data(&scene)];
    expected.extend(setup(0, None));
    expected.extend(vec![
        GlCommand::StencilMask { mask: 0x00 },
        GlCommand::StencilOp {
            action: StencilAction::Keep,
        },
        GlCommand::DepthFunc {
            comparison: Comparison::LessOrEqual,
        },
        GlCommand::UseProgram { program },
        set(program, "cube_map", UniformValue::Int(0)),
        GlCommand::BindVertexArray {
            vertex_array: scene.container.predefined_shapes.unit_cube.id,
        },
        GlCommand::ActiveTexture { unit: 0 },
        GlCommand::BindTexture {
            target: TextureTarget::CubeMapArray,
            texture: skybox.id,
        },
        GlCommand::DrawArrays {
            first: 0,
            vertices: 36,
        },
    ]);
    expected.extend(outline_setup());
    assert_eq!(commands, expected);
}

fn clear_target() -> Vec<GlCommand> {
    vec![
        GlCommand::ClearColor {
            red: scalar(1.0),
            green: scalar(0.5),
            blue: scalar(1.0),
            alpha: scalar(1.0),
        },
        GlCommand::Clear,
    ]
}

fn screen_texture(program: u32, texture: u32) -> Vec<GlCommand> {
    vec![
        GlCommand::UseProgram { program },
        GlCommand::ActiveTexture { unit: 0 },
        GlCommand::BindTexture {
            target: TextureTarget::Texture2D,
            texture,
        },
        set(program, "screen_texture", UniformValue::Int(0)),
    ]
}

fn draw_quad(quad: u32) -> Vec<GlCommand> {
    vec![
        GlCommand::Disable {
            capability: Capability::DepthTest,
        },
        GlCommand::DrawArrays {
            first: 0,
            vertices: 6,
        },
    ]
    .into_iter()
    .rev()
    .chain(std::iter::once(GlCommand::BindVertexArray { vertex_array: quad }))
    .rev()
    .collect()
}

fn kernel_pass(c: &Container, weights: &Arc<Vec<u32>>, side: i32, target: u32, input: u32) -> Vec<GlCommand> {
    let program = c.kernel_shader.program.id;
    let mut commands = vec![GlCommand::BindFramebuffer { framebuffer: target }];
    commands.extend(clear_target());
    commands.extend(screen_texture(program, input));
    commands.push(set(program, "kernel", UniformValue::Scalars(weights.clone())));
    commands.push(set(program, "kernel_size", UniformValue::Int(side)));
    commands.extend(draw_quad(c.predefined_shapes.unit_quad.id));
    commands
}

fn blur_pass(c: &Container, weights: &Arc<Vec<u32>>, vertical: bool, target: u32, input: u32) -> Vec<GlCommand> {
    let program = c.gaussian_blur_shader.program.id;
    let mut commands = screen_texture(program, input);
    commands.push(set(program, "row", UniformValue::Scalars(weights.clone())));
    commands.push(set(program, "row_size", UniformValue::Int(weights.len() as i32)));
    commands.push(set(program, "vertical", UniformValue::Int(vertical as i32)));
    commands.push(GlCommand::BindVertexArray {
        vertex_array: c.predefined_shapes.unit_quad.id,
    });
    commands.push(GlCommand::BindFramebuffer { framebuffer: target });
    commands.extend(clear_target());
    commands.push(GlCommand::Disable {
        capability: Capability::DepthTest,
    });
    commands.push(GlCommand::DrawArrays {
        first: 0,
        vertices: 6,
    });
    commands
}

#[test]
fn effects_hand_the_picture_on_and_the_last_one_shows_it() {
    let edge = vec![1.0f32, 1.0, 1.0, 1.0, -8.0, 1.0, 1.0, 1.0, 1.0];
    let edge: Vec<u32> = edge.into_iter().map(f32::to_bits).collect();
    let row: Vec<u32> = vec![0.25f32, 0.5, 0.25].into_iter().map(f32::to_bits).collect();
    let mut scene = plain_scene(|gl| {
        vec![
            Effect::Kernel(Kernel::new(gl, edge.clone())),
            Effect::GaussianBlur(GaussianBlur::new(gl, row.clone())),
        ]
    });
    scene.active.entity = Some(CAMERA);
    let commands = scene.run();

    let camera = scene.cameras.get(CAMERA).unwrap();
    let (kernel, blur) = match &camera.post_processing_effects[..] {
        [Effect::Kernel(kernel), Effect::GaussianBlur(blur)] => (kernel, blur),
        other => panic!("unexpected {:?}", other),
    };
    assert_eq!(kernel.side, 3);
    assert_eq!(*kernel.kernel, edge);
    assert!(camera.ready());
    let camera_fb = camera.fb.as_ref().expect("a camera with effects has a framebuffer");
    assert_ne!(camera_fb.id, 0);
    let mut expected = vec![camera_data(&scene)];
    // the scene goes into the framebuffer of the camera
    expected.extend(setup(camera_fb.id, Some((0.5, 0.8, 1.0))));
    expected.extend(outline_setup());
    // the first effect reads the picture of the camera and draws into its own framebuffer
    expected.extend(kernel_pass(
        &scene.container,
        &kernel.kernel,
        3,
        kernel.fb.id,
        camera_fb.color_texture.id,
    ));
    // the second effect reads the picture of the first and shows the result
    expected.extend(blur_pass(
        &scene.container,
        &blur.kernel,
        true,
        blur.v_pass.id,
        kernel.fb.color_texture.id,
    ));
    expected.extend(blur_pass(
        &scene.container,
        &blur.kernel,
        false,
        0,
        blur.v_pass.color_texture.id,
    ));
    assert_eq!(commands, expected);

    let targets: Vec<u32> = commands
        .iter()
        .filter_map(|command| match command {
            GlCommand::BindFramebuffer { framebuffer } => Some(*framebuffer),
            _ => None,
        })
        .collect();
    assert_eq!(targets, vec![camera_fb.id, kernel.fb.id, blur.v_pass.id, 0]);
}

#[test]
fn an_effect_in_the_middle_never_draws_onto_the_visible_surface() {
    let row: Vec<u32> = vec![1.0f32.to_bits()];
    let mut gl = GlQueue::new();
    let container = container(&mut gl);
    let blur = GaussianBlur::new(&mut gl, row.clone());
    let kernel = Kernel::new(&mut gl, row.clone());
    let input = engine::ecs::components::offscreen_target(&mut gl, 800, 800);
    let _ = gl.take();

    let output = blur.apply(&container, &mut gl, &input);
    assert_eq!(output.id, blur.h_pass.id);
    let mut expected = blur_pass(&container, &blur.kernel, true, blur.v_pass.id, input.color_texture.id);
    expected.extend(blur_pass(
        &container,
        &blur.kernel,
        false,
        blur.h_pass.id,
        blur.v_pass.color_texture.id,
    ));
    let applied = gl.take();
    assert_eq!(applied, expected);
    assert!(!applied.contains(&GlCommand::BindFramebuffer { framebuffer: 0 }));

    let output = kernel.apply(&container, &mut gl, &input);
    assert_eq!(output.id, kernel.fb.id);
    let applied = gl.take();
    assert_eq!(
        applied,
        kernel_pass(&container, &kernel.kernel, 1, kernel.fb.id, input.color_texture.id)
    );
    assert!(!applied.contains(&GlCommand::BindFramebuffer { framebuffer: 0 }));

    kernel.apply_to_screen(&container, &mut gl, &input);
    assert_eq!(
        gl.take(),
        kernel_pass(&container, &kernel.kernel, 1, 0, input.color_texture.id)
    );
    let own = kernel.fb.id;
    let effect = Effect::Kernel(kernel);
    let output: &FBO = effect.apply(&container, &mut gl, &input);
    assert_eq!(output.id, own);
}

#[test]
fn an_offscreen_target_has_a_texture_and_a_renderbuffer() {
    let mut gl = GlQueue::new();
    let container = container(&mut gl);
    let kernel = Kernel::new(&mut gl, vec![1.0f32.to_bits()]);
    let _ = gl.take();
    let first = gl.names_handed_out();
    let camera = Camera::new(
        &mut gl,
        Projection::Orthographic(scalar(4.0)),
        scalar(1.0),
        scalar(0.1),
        scalar(10.0),
        Background::Color(scalar(0.0), scalar(0.0), scalar(0.0)),
        vec![Effect::Kernel(kernel)],
    );
    let _ = &container;
    assert_eq!(camera.projection, Projection::Orthographic(scalar(4.0)));
    assert!(camera.ready());
    let fb = camera.fb.as_ref().unwrap();
    assert_eq!((fb.color_texture.id, fb.id), (first + 1, first + 3));
    assert_eq!(gl.names_handed_out(), first + 3);
    let commands = gl.take();
    assert_eq!(commands.len(), 3 + 1 + 2 + 4);
    assert_eq!(
        commands[3],
        GlCommand::TextureStorage2D {
            texture: first + 1,
            levels: 1,
            format: TextureFormat::RGBA,
            width: 1920,
            height: 1080
        }
    );
    assert_eq!(
        commands[5],
        GlCommand::RenderbufferDepthStencil {
            renderbuffer: first + 2,
            width: 1920,
            height: 1080
        }
    );
    assert_eq!(commands[9], GlCommand::CheckFramebuffer { framebuffer: first + 3 });
}

#[test]
fn a_camera_without_effects_has_no_offscreen_target() {
    let mut gl = GlQueue::new();
    let camera = Camera::new(
        &mut gl,
        Projection::Perspective(scalar(1.2)),
        scalar(1.5),
        scalar(0.1),
        scalar(10.0),
        Background::Color(scalar(0.0), scalar(0.0), scalar(0.0)),
        vec![],
    );
    // nothing was asked of the graphics queue, and no name was taken
    assert_eq!(gl.names_handed_out(), 0);
    assert_eq!(gl.take(), vec![]);
    assert!(camera.fb.is_none());
    assert!(camera.ready());
    assert_eq!(camera.projection, Projection::Perspective(scalar(1.2)));
    assert_eq!(camera.aspect_ratio, scalar(1.5));
    assert_eq!(camera.near_plane, scalar(0.1));
    assert_eq!(camera.far_plane, scalar(10.0));
    assert!(camera.post_processing_effects.is_empty());
}

#[test]
fn a_camera_whose_framebuffer_is_missing_is_not_ready() {
    let mut gl = GlQueue::new();
    let container = container(&mut gl);
    let kernel = Kernel::new(&mut gl, vec![1.0f32.to_bits()]);
    let _ = &container;
    let mut camera = Camera::new(
        &mut gl,
        Projection::Perspective(scalar(1.2)),
        scalar(1.0),
        scalar(0.1),
        scalar(10.0),
        Background::Color(scalar(0.0), scalar(0.0), scalar(0.0)),
        vec![Effect::Kernel(kernel)],
    );
    assert!(camera.ready());
    camera.fb = None;
    assert!(!camera.ready());
    camera.post_processing_effects.clear();
    assert!(camera.ready());
}

#[test]
fn the_first_point_light_is_bound() {
    let mut gl = GlQueue::new();
    let container = container(&mut gl);
    let mut transforms: ComponentStore<Transform> = ComponentStore::new(16);
    let mut lights: ComponentStore<PointLight> = ComponentStore::new(16);
    let data = DiffuseData::default();
    assert_eq!(find_first_light(&transforms, &lights), None);
    data.bind_lights(&container, &mut gl, &transforms, &lights);
    assert_eq!(gl.take(), vec![]);

    let white = vec3(scalar(1.0), scalar(1.0), scalar(1.0));
    let red = vec3(scalar(1.0), scalar(0.0), scalar(0.0));
    let here = vec3(scalar(10.0), scalar(10.0), scalar(10.0));
    assert!(lights
        .insert(2, PointLight { color: red, range: scalar(1.0), intensity: scalar(9.0) })
        .is_ok());
    assert!(lights
        .insert(4, PointLight { color: white, range: scalar(100.0), intensity: scalar(1.0) })
        .is_ok());
    assert!(lights
        .insert(6, PointLight { color: red, range: scalar(1.0), intensity: scalar(2.0) })
        .is_ok());
    for id in [4u32, 6] {
        let transform = Transform {
            position: here,
            ..Transform::default()
        };
        assert!(transforms.insert(id, transform).is_ok());
    }
    // the light of entity 2 has no place; that of entity 4 is the first
    assert_eq!(find_first_light(&transforms, &lights), Some(4));
    data.bind_lights(&container, &mut gl, &transforms, &lights);
    let program = container.diffuse_shader.program.id;
    assert_eq!(
        gl.take(),
        vec![
            set(program, "light.position", UniformValue::Vector3(here)),
            set(program, "light.color", UniformValue::Vector3(white)),
            set(program, "light.ambient_strength", UniformValue::Scalar(scalar(0.5))),
            set(program, "light.intensity", UniformValue::Scalar(scalar(1.0))),
        ]
    );
    OutlineData { color: red }.bind_lights(&container, &mut gl, &transforms, &lights);
    assert_eq!(gl.take(), vec![]);
}

#[test]
fn a_textured_material_binds_its_textures() {
    let mut gl = GlQueue::new();
    let container = container(&mut gl);
    let diffuse = Arc::new(texture_from_image(&mut gl, ImageColor::Rgb8, 2, 2, vec![0; 12]));
    let normal = Arc::new(texture_from_image(&mut gl, ImageColor::Rgba8, 1, 1, vec![0; 4]));
    assert_eq!(diffuse.format, TextureFormat::RGB);
    assert_eq!(normal.format, TextureFormat::RGBA);
    assert_eq!(diffuse.mipmap_levels, 8);
    let uploads = gl.take();
    assert_eq!(uploads.len(), 2 * (3 + 1 + 2));
    assert_eq!(
        uploads[4],
        GlCommand::TextureSubImage2D {
            texture: diffuse.id,
            xoffset: 0,
            yoffset: 0,
            width: 2,
            height: 2,
            format: TextureFormat::RGB,
            pixels: vec![0; 12]
        }
    );

    let blue = vec3(scalar(0.0), scalar(0.0), scalar(1.0));
    let material = ModelLoader::load_material(
        Some(MaterialData {
            diffuse: vec3(scalar(0.1), scalar(0.2), scalar(0.3)),
            specular: blue,
            shininess: scalar(8.0),
        }),
        MaterialTextures {
            diffuse: Some(diffuse.clone()),
            specular: None,
            normal: Some(normal.clone()),
        },
    );
    let data = material.shader_data;
    assert!(matches!(&data.diffuse, PixelData::Texture(t) if t.id == diffuse.id));
    assert!(matches!(&data.specular, PixelData::Color(c) if *c == blue));
    assert_eq!(data.normal.as_ref().map(|t| t.id), Some(normal.id));
    assert_eq!(data.shininess, scalar(8.0));

    let model = Mat4 { words: [3; 16] };
    data.bind_model(&container, &mut gl, &model);
    let program = container.diffuse_shader.program.id;
    let bind = |unit: u32, texture: u32| {
        vec![
            GlCommand::ActiveTexture { unit },
            GlCommand::BindTexture {
                target: TextureTarget::Texture2D,
                texture,
            },
        ]
    };
    let mut expected = vec![
        GlCommand::UseProgram { program },
        set(program, "model", UniformValue::Matrix4(model)),
    ];
    expected.extend(bind(0, diffuse.id));
    expected.push(set(program, "material.diffuse_texture", UniformValue::Int(0)));
    expected.push(set(program, "material.using_diffuse_texture", UniformValue::Int(1)));
    expected.push(set(program, "material.specular_color", UniformValue::Vector3(blue)));
    expected.push(set(program, "material.using_specular_texture", UniformValue::Int(0)));
    expected.extend(bind(2, normal.id));
    expected.push(set(program, "material.normal_texture", UniformValue::Int(2)));
    expected.push(set(program, "material.shininess", UniformValue::Scalar(scalar(8.0))));
    assert_eq!(gl.take(), expected);

    let outline = OutlineData { color: blue };
    outline.bind_model(&container, &mut gl, &model);
    let program = container.outline_shader.program.id;
    assert_eq!(
        gl.take(),
        vec![
            GlCommand::UseProgram { program },
            set(program, "model", UniformValue::Matrix4(model)),
            set(program, "color", UniformValue::Vector3(blue)),
        ]
    );
}

#[test]
fn a_model_without_a_material_gets_the_default_one() {
    let textures = MaterialTextures {
        diffuse: None,
        specular: None,
        normal: None,
    };
    let data = ModelLoader::load_material(None, textures).shader_data;
    let grey = vec3(scalar(0.7), scalar(0.7), scalar(0.7));
    let half = vec3(scalar(0.5), scalar(0.5), scalar(0.5));
    assert!(matches!(&data.diffuse, PixelData::Color(c) if *c == grey));
    assert!(matches!(&data.specular, PixelData::Color(c) if *c == half));
    assert!(data.normal.is_none());
    assert_eq!(data.shininess, scalar(32.0));

    // a material without textures falls back to its colours
    let textures = MaterialTextures {
        diffuse: None,
        specular: None,
        normal: None,
    };
    let red = vec3(scalar(1.0), scalar(0.0), scalar(0.0));
    let material = MaterialData {
        diffuse: red,
        specular: grey,
        shininess: scalar(2.0),
    };
    let data = ModelLoader::load_material(Some(material), textures).shader_data;
    assert!(matches!(&data.diffuse, PixelData::Color(c) if *c == red));
    assert!(matches!(&data.specular, PixelData::Color(c) if *c == grey));
    assert!(data.normal.is_none());
    assert_eq!(data.shininess, scalar(2.0));
}

#[test]
fn a_model_is_uploaded_with_its_indices_and_three_attributes() {
    let mut gl = GlQueue::new();
    let model = ModelData {
        positions: vec![1, 2, 3, 4, 5, 6, 7, 8, 9],
        texcoords: vec![10, 11, 12, 13, 14, 15],
        normals: vec![16, 17, 18, 19, 20, 21, 22, 23, 24],
        indices: vec![0, 1, 2],
    };
    let textures = MaterialTextures {
        diffuse: None,
        specular: None,
        normal: None,
    };
    let renderer = ModelLoader.load(&mut gl, model, None, textures);
    assert_eq!(renderer.mesh.vao.id, 5);
    assert_eq!(renderer.mesh.positions, vec![1, 2, 3, 4, 5, 6, 7, 8, 9]);
    assert_eq!(renderer.mesh.indices, vec![0, 1, 2]);
    assert_eq!(renderer.mesh.texcoords.len(), 6);
    assert_eq!(renderer.mesh.normals.len(), 9);
    let commands = gl.take();
    let data = |buffer: u32, data: Vec<u32>| GlCommand::BufferData {
        buffer,
        data,
        usage: BufferUpdateFrequency::Never,
    };
    assert_eq!(commands[1], data(1, vec![0, 1, 2]));
    assert_eq!(commands[3], data(2, vec![1, 2, 3, 4, 5, 6, 7, 8, 9]));
    assert_eq!(commands[5], data(3, vec![10, 11, 12, 13, 14, 15]));
    assert_eq!(commands[7], data(4, vec![16, 17, 18, 19, 20, 21, 22, 23, 24]));
    assert_eq!(commands[8], GlCommand::CreateVertexArray { vertex_array: 5 });
    assert_eq!(
        commands[14],
        GlCommand::VertexArrayAttribFormat {
            vertex_array: 5,
            index: 1,
            components: 2,
            offset: 0
        }
    );
    assert_eq!(
        commands[commands.len() - 1],
        GlCommand::VertexArrayElementBuffer {
            vertex_array: 5,
            buffer: 1
        }
    );
    assert_eq!(commands.len(), 8 + 1 + 12 + 1);
}
